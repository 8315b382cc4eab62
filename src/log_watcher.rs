//! Log tailing: which chat lines belong to the configured player, what a line
//! says, and which bytes of the growing log each poll reads.

use vstd::prelude::*;
use vstd::utf8::{decode_utf8, valid_utf8};

use crate::text::{chars_of, line_ranges, lines_of, range_starts_with, starts_with, trim, trim_bounds};

verus! {

/// `"(TEAM) {name} :"`
pub open spec fn team_prefix(name: Seq<char>) -> Seq<char> {
    seq!['(', 'T', 'E', 'A', 'M', ')', ' '] + name + seq![' ', ':']
}

/// `"*DEAD*(TEAM) {name} :"`
pub open spec fn dead_team_prefix(name: Seq<char>) -> Seq<char> {
    seq!['*', 'D', 'E', 'A', 'D', '*'] + team_prefix(name)
}

/// `"{name} :"`
pub open spec fn all_chat_prefix(name: Seq<char>) -> Seq<char> {
    name + seq![' ', ':']
}

/// `"*DEAD* {name} :"`
pub open spec fn dead_prefix(name: Seq<char>) -> Seq<char> {
    seq!['*', 'D', 'E', 'A', 'D', '*', ' '] + all_chat_prefix(name)
}

/// The prefixes of a chat line written by `name`, in the order they are tried.
pub open spec fn chat_prefixes(name: Seq<char>) -> Seq<Seq<char>> {
    seq![team_prefix(name), dead_team_prefix(name), all_chat_prefix(name), dead_prefix(name)]
}

/// The message of `line` when its first matching prefix, from the `k`-th on, is
/// removed and the rest trimmed; `None` when none of them matches.
pub open spec fn message_after(prefixes: Seq<Seq<char>>, line: Seq<char>, k: int) -> Option<
    Seq<char>,
>
    decreases prefixes.len() - k,
{
    if k < 0 || k >= prefixes.len() {
        None
    } else if starts_with(line, prefixes[k]) {
        Some(trim(line.skip(prefixes[k].len() as int)))
    } else {
        message_after(prefixes, line, k + 1)
    }
}

/// What `name` said on `line`, if `line` is one of their chat lines.
pub open spec fn chat_message(name: Seq<char>, line: Seq<char>) -> Option<Seq<char>> {
    message_after(chat_prefixes(name), line, 0)
}

/// The chat messages of `name` among `lines`, in order; an empty message is no message.
pub open spec fn messages_in(name: Seq<char>, lines: Seq<Seq<char>>) -> Seq<Seq<char>>
    decreases lines.len(),
{
    if lines.len() == 0 {
        seq![]
    } else {
        let rest = messages_in(name, lines.drop_last());
        match chat_message(name, lines.last()) {
            Some(m) => if m.len() > 0 {
                rest.push(m)
            } else {
                rest
            },
            None => rest,
        }
    }
}

/// The chat messages of `name` in a chunk of log text.
pub open spec fn messages_of(name: Seq<char>, text: Seq<char>) -> Seq<Seq<char>> {
    messages_in(name, lines_of(text))
}

proof fn lemma_message_after_skips(ps: Seq<Seq<char>>, line: Seq<char>, k: int)
    requires
        0 <= k <= ps.len(),
        forall|j: int| 0 <= j < k ==> !starts_with(line, #[trigger] ps[j]),
    ensures
        message_after(ps, line, 0) == message_after(ps, line, k),
    decreases k,
{
    if k > 0 {
        lemma_message_after_skips(ps, line, k - 1);
    }
}

/// A line that begins with one of `name`'s chat prefixes, and with none of those
/// tried before it, yields what follows that prefix, trimmed.
pub proof fn lemma_prefixed_line_yields_rest(name: Seq<char>, line: Seq<char>, k: int)
    requires
        0 <= k < 4,
        starts_with(line, chat_prefixes(name)[k]),
        forall|j: int| 0 <= j < k ==> !starts_with(line, #[trigger] chat_prefixes(name)[j]),
    ensures
        chat_message(name, line) == Some(trim(line.skip(chat_prefixes(name)[k].len() as int))),
{
    lemma_message_after_skips(chat_prefixes(name), line, k);
}

/// A line that begins with none of `name`'s chat prefixes yields no message.
pub proof fn lemma_other_line_yields_nothing(name: Seq<char>, line: Seq<char>)
    requires
        forall|j: int| 0 <= j < 4 ==> !starts_with(line, #[trigger] chat_prefixes(name)[j]),
    ensures
        chat_message(name, line) is None,
{
    lemma_message_after_skips(chat_prefixes(name), line, 4);
}

/// The text that `String::from_utf8_lossy` makes of `bytes`.
pub uninterp spec fn lossy_utf8(bytes: Seq<u8>) -> Seq<char>;

/// Relies on `String::from_utf8_lossy`: the decoded text, with each invalid
/// sequence replaced; valid UTF-8 decodes to its own characters.
#[verifier::external_body]
fn decode_lossy(bytes: &[u8]) -> (r: String)
    ensures
        r@ == lossy_utf8(bytes@),
        valid_utf8(bytes@) ==> r@ == decode_utf8(bytes@),
{
    String::from_utf8_lossy(bytes).into_owned()
}

fn push_chars(v: &mut Vec<char>, s: &Vec<char>)
    ensures
        final(v)@ == old(v)@ + s@,
{
    let mut i: usize = 0;
    while i < s.len()
        invariant
            i <= s.len(),
            v@ == old(v)@ + s@.take(i as int),
        decreases s.len() - i,
    {
        v.push(s[i]);
        i = i + 1;
        assert(v@ =~= old(v)@ + s@.take(i as int));
    }
    assert(s@.take(i as int) =~= s@);
}

fn team_prefix_chars(name: &Vec<char>) -> (r: Vec<char>)
    ensures
        r@ == team_prefix(name@),
{
    let mut p: Vec<char> = Vec::new();
    p.push('(');
    p.push('T');
    p.push('E');
    p.push('A');
    p.push('M');
    p.push(')');
    p.push(' ');
    push_chars(&mut p, name);
    p.push(' ');
    p.push(':');
    assert(p@ =~= team_prefix(name@));
    p
}

fn dead_marker_then(rest: &Vec<char>) -> (r: Vec<char>)
    ensures
        r@ == seq!['*', 'D', 'E', 'A', 'D', '*'] + rest@,
{
    let mut p: Vec<char> = Vec::new();
    p.push('*');
    p.push('D');
    p.push('E');
    p.push('A');
    p.push('D');
    p.push('*');
    push_chars(&mut p, rest);
    assert(p@ =~= seq!['*', 'D', 'E', 'A', 'D', '*'] + rest@);
    p
}

fn chat_prefix_chars(name: &Vec<char>) -> (r: Vec<Vec<char>>)
    ensures
        r.deep_view() == chat_prefixes(name@),
{
    let team = team_prefix_chars(name);
    let dead_team = dead_marker_then(&team);
    let mut all: Vec<char> = Vec::new();
    push_chars(&mut all, name);
    all.push(' ');
    all.push(':');
    assert(all@ =~= all_chat_prefix(name@));
    let mut spaced: Vec<char> = Vec::new();
    spaced.push(' ');
    push_chars(&mut spaced, &all);
    let dead = dead_marker_then(&spaced);
    assert(dead@ =~= dead_prefix(name@));
    assert(dead_team@ =~= dead_team_prefix(name@));
    let mut r: Vec<Vec<char>> = Vec::new();
    r.push(team);
    r.push(dead_team);
    r.push(all);
    r.push(dead);
    assert(r.deep_view()[0] =~= team_prefix(name@));
    assert(r.deep_view()[1] =~= dead_team_prefix(name@));
    assert(r.deep_view()[2] =~= all_chat_prefix(name@));
    assert(r.deep_view()[3] =~= dead_prefix(name@));
    assert(r.deep_view() =~= chat_prefixes(name@));
    r
}

/// The bounds of the message on the line `cs[lo..hi]`, if it is a chat line.
fn message_bounds(prefixes: &Vec<Vec<char>>, cs: &Vec<char>, lo: usize, hi: usize) -> (r: Option<
    (usize, usize),
>)
    requires
        lo <= hi <= cs.len(),
    ensures
        match message_after(prefixes.deep_view(), cs@.subrange(lo as int, hi as int), 0) {
            None => r is None,
            Some(m) => r matches Some(b) && lo <= b.0 <= b.1 <= hi && cs@.subrange(
                b.0 as int,
                b.1 as int,
            ) == m,
        },
{
    let ghost line = cs@.subrange(lo as int, hi as int);
    let ghost ps = prefixes.deep_view();
    let mut k: usize = 0;
    while k < prefixes.len()
        invariant
            k <= prefixes.len(),
            lo <= hi <= cs.len(),
            ps == prefixes.deep_view(),
            line == cs@.subrange(lo as int, hi as int),
            message_after(ps, line, 0) == message_after(ps, line, k as int),
        decreases prefixes.len() - k,
    {
        let p = &prefixes[k];
        assert(ps[k as int] == p@);
        if range_starts_with(cs, lo, hi, p) {
            let b = trim_bounds(cs, lo + p.len(), hi);
            assert(cs@.subrange(lo + p.len(), hi as int) =~= line.skip(p@.len() as int));
            return Some(b);
        }
        k = k + 1;
    }
    None
}

/// The message of `name` on `line`: the first of its chat prefixes that begins
/// `line` is removed and the rest trimmed; `None` for any other line.
pub fn extract_chat_message(user_name: &str, line: &str) -> (r: Option<String>)
    ensures
        match chat_message(user_name@, line@) {
            None => r is None,
            Some(m) => r matches Some(s) && s@ == m,
        },
{
    let name = chars_of(user_name);
    let prefixes = chat_prefix_chars(&name);
    let cs = chars_of(line);
    assert(cs@.subrange(0, cs@.len() as int) =~= line@);
    match message_bounds(&prefixes, &cs, 0, cs.len()) {
        None => None,
        Some(b) => Some(line.substring_char(b.0, b.1).to_owned()),
    }
}

/// The non-empty chat messages of `name` in `content`, line by line, in order.
pub fn extract_messages(user_name: &str, content: &str) -> (r: Vec<String>)
    ensures
        r.deep_view() == messages_of(user_name@, content@),
{
    let name = chars_of(user_name);
    let prefixes = chat_prefix_chars(&name);
    let cs = chars_of(content);
    let ranges = line_ranges(&cs);
    let ghost lines = lines_of(content@);
    let mut out: Vec<String> = Vec::new();
    let mut k: usize = 0;
    while k < ranges.len()
        invariant
            k <= ranges.len() == lines.len(),
            cs@ == content@,
            lines == lines_of(cs@),
            prefixes.deep_view() == chat_prefixes(user_name@),
            forall|j: int|
                #![trigger ranges@[j]]
                0 <= j < ranges@.len() ==> {
                    &&& ranges@[j].0 <= ranges@[j].1 <= cs.len()
                    &&& cs@.subrange(ranges@[j].0 as int, ranges@[j].1 as int) == lines[j]
                },
            out.deep_view() == messages_in(user_name@, lines.take(k as int)),
        decreases ranges.len() - k,
    {
        let (lo, hi) = ranges[k];
        assert(ranges@[k as int] == (lo, hi));
        assert(lines.take(k + 1).drop_last() =~= lines.take(k as int));
        assert(lines.take(k + 1).last() == lines[k as int]);
        match message_bounds(&prefixes, &cs, lo, hi) {
            None => {},
            Some(b) => {
                if b.0 < b.1 {
                    let m = content.substring_char(b.0, b.1).to_owned();
                    out.push(m);
                    assert(out.deep_view() =~= messages_in(user_name@, lines.take(k as int)).push(
                        m@,
                    ));
                }
            },
        }
        k = k + 1;
    }
    assert(lines.take(k as int) =~= lines);
    out
}

/// The non-empty chat messages of `name` in a chunk of raw log bytes, decoded
/// with each invalid UTF-8 sequence replaced.
pub fn messages_from_bytes(user_name: &str, bytes: &[u8]) -> (r: Vec<String>)
    ensures
        r.deep_view() == messages_of(user_name@, lossy_utf8(bytes@)),
        valid_utf8(bytes@) ==> r.deep_view() == messages_of(user_name@, decode_utf8(bytes@)),
{
    let content = decode_lossy(bytes);
    extract_messages(user_name, content.as_str())
}

/// Where the player's log lives and who the player is.
#[derive(Debug, Clone)]
pub struct LogWatcherConfig {
    pub user_id: String,
    pub user_name: String,
    pub steam_folder: String,
    pub log_path: String,
}

/// Why the watcher's configuration could not be made.
#[derive(Debug, Clone, Copy, PartialEq, Eq, Structural)]
pub enum ConfigError {
    /// The user id does not make a valid search pattern.
    InvalidPattern,
    /// The login users file holds no persona name for the user id.
    UserNotFound,
}

/// The pattern that finds the persona name of `user_id` in the login users file:
/// the quoted id, then within its block the quoted value of `"PersonaName"`.
pub open spec fn persona_pattern(user_id: Seq<char>) -> Seq<char> {
    "\""@ + user_id + "\"\\s*\\{[^}]*\"PersonaName\"\\s*\"([^\"]*)\""@
}

/// The game's console log under a Steam installation folder.
pub open spec fn log_path_in(steam_folder: Seq<char>) -> Seq<char> {
    steam_folder + "\\steamapps\\common\\Team Fortress 2\\tf\\tf2consoleoutput.log"@
}

#[verifier::external_type_specification]
#[verifier::external_body]
pub struct ExRegex(regex::Regex);

/// Whether the `regex` crate accepts `pattern`.
pub uninterp spec fn regex_compiles(pattern: Seq<char>) -> bool;

/// The text of capture group 1 in the leftmost-first match of `pattern` in
/// `haystack`, as the `regex` crate finds it; `None` when there is no match or
/// the group took no part in it.
pub uninterp spec fn regex_group_one(pattern: Seq<char>, haystack: Seq<char>) -> Option<Seq<char>>;

/// A compiled regular expression together with the pattern it was compiled from.
pub struct CompiledPattern {
    source: String,
    re: regex::Regex,
}

impl CompiledPattern {
    /// The pattern this was compiled from.
    pub closed spec fn source(&self) -> Seq<char> {
        self.source@
    }
}

/// Relies on `regex::Regex::new`: it compiles `pattern`, or refuses it with an
/// error that is dropped here.
#[verifier::external_body]
fn compile_pattern(pattern: &str) -> (r: Option<CompiledPattern>)
    ensures
        r is Some == regex_compiles(pattern@),
        r matches Some(p) ==> p.source() == pattern@,
{
    match regex::Regex::new(pattern) {
        Ok(re) => Some(CompiledPattern { source: pattern.to_string(), re }),
        Err(_) => None,
    }
}

/// Relies on `regex::Regex::captures`, then `Captures::get(1)`: the text of group 1
/// of the leftmost-first match.
#[verifier::external_body]
fn first_group(p: &CompiledPattern, haystack: &str) -> (r: Option<String>)
    ensures
        match regex_group_one(p.source(), haystack@) {
            None => r is None,
            Some(g) => r matches Some(s) && s@ == g,
        },
{
    match p.re.captures(haystack) {
        Some(caps) => caps.get(1).map(|m| m.as_str().to_string()),
        None => None,
    }
}

/// The search pattern for the persona name of `user_id`.
pub fn persona_pattern_of(user_id: &str) -> (r: String)
    ensures
        r@ == persona_pattern(user_id@),
{
    let mut p = String::from_str("\"");
    p.append(user_id);
    p.append("\"\\s*\\{[^}]*\"PersonaName\"\\s*\"([^\"]*)\"");
    p
}

impl LogWatcherConfig {
    /// The configuration of a player whose persona name is known.
    pub fn from_persona(user_id: &str, user_name: &str, steam_folder: &str) -> (r: Self)
        ensures
            r.user_id@ == user_id@,
            r.user_name@ == user_name@,
            r.steam_folder@ == steam_folder@,
            r.log_path@ == log_path_in(steam_folder@),
    {
        let mut log_path = String::from_str(steam_folder);
        log_path.append("\\steamapps\\common\\Team Fortress 2\\tf\\tf2consoleoutput.log");
        LogWatcherConfig {
            user_id: String::from_str(user_id),
            user_name: String::from_str(user_name),
            steam_folder: String::from_str(steam_folder),
            log_path,
        }
    }

    /// The configuration of the player `user_id`, whose persona name is looked up
    /// in `users_content`, the text of the Steam login users file.
    pub fn new(user_id: &str, steam_folder: &str, users_content: &str) -> (r: Result<
        Self,
        ConfigError,
    >)
        ensures
            !regex_compiles(persona_pattern(user_id@)) ==> r == Err::<Self, ConfigError>(
                ConfigError::InvalidPattern,
            ),
            regex_compiles(persona_pattern(user_id@)) ==> match regex_group_one(
                persona_pattern(user_id@),
                users_content@,
            ) {
                None => r == Err::<Self, ConfigError>(ConfigError::UserNotFound),
                Some(name) => r matches Ok(c) && c.user_id@ == user_id@ && c.user_name@ == name
                    && c.steam_folder@ == steam_folder@ && c.log_path@ == log_path_in(
                    steam_folder@,
                ),
            },
    {
        let pattern = persona_pattern_of(user_id);
        let compiled = match compile_pattern(pattern.as_str()) {
            Some(p) => p,
            None => return Err(ConfigError::InvalidPattern),
        };
        match first_group(&compiled, users_content) {
            None => Err(ConfigError::UserNotFound),
            Some(name) => Ok(LogWatcherConfig::from_persona(user_id, name.as_str(), steam_folder)),
        }
    }
}

/// A range `[start, end)` of log bytes that a poll asks to read.
#[derive(Debug, Clone, Copy, PartialEq, Eq, Structural)]
pub struct ReadRange {
    pub start: u64,
    pub end: u64,
}

/// Where reading resumes on a log of `len` bytes when `offset` bytes were
/// consumed: a log shorter than that was truncated or rotated, and is read
/// again from its start.
pub open spec fn resume_from(offset: int, len: int) -> int {
    if len < offset {
        0
    } else {
        offset
    }
}

/// The bytes that a poll on a log of `len` bytes reads when `offset` bytes were
/// consumed: all that lies past the resume point, if anything does.
pub open spec fn pending_read(offset: int, len: int) -> Option<(int, int)> {
    let from = resume_from(offset, len);
    if len > from {
        Some((from, len))
    } else {
        None
    }
}

/// The consumed offset after a poll on a log of `len` bytes and the processing
/// of what it read.
pub open spec fn offset_after_poll(offset: int, len: int) -> int {
    match pending_read(offset, len) {
        Some(r) => r.1,
        None => resume_from(offset, len),
    }
}

/// The ranges read by successive polls that see the lengths `lens`, starting
/// with `offset` bytes consumed.
pub open spec fn reads_over(offset: int, lens: Seq<int>) -> Seq<(int, int)>
    decreases lens.len(),
{
    if lens.len() == 0 {
        seq![]
    } else {
        let now = match pending_read(offset, lens[0]) {
            Some(r) => seq![r],
            None => seq![],
        };
        now + reads_over(offset_after_poll(offset, lens[0]), lens.drop_first())
    }
}

/// The byte positions `[from, to)`, in order.
pub open spec fn span(from: int, to: int) -> Seq<int> {
    Seq::new((to - from) as nat, |i: int| from + i)
}

/// The byte positions covered by `reads`, in the order they were read.
pub open spec fn bytes_read(reads: Seq<(int, int)>) -> Seq<int>
    decreases reads.len(),
{
    if reads.len() == 0 {
        seq![]
    } else {
        span(reads[0].0, reads[0].1) + bytes_read(reads.drop_first())
    }
}

/// The log is never shorter than `start` and never shrinks across `lens`.
pub open spec fn grows_from(start: int, lens: Seq<int>) -> bool {
    &&& forall|i: int| 0 <= i < lens.len() ==> start <= #[trigger] lens[i]
    &&& forall|i: int, j: int| 0 <= i <= j < lens.len() ==> lens[i] <= lens[j]
}

/// The length of the log after the polls that see `lens`.
pub open spec fn final_len(start: int, lens: Seq<int>) -> int {
    if lens.len() == 0 {
        start
    } else {
        lens.last()
    }
}

/// On a log that only grows, successive polls read every byte past the starting
/// offset exactly once, in order, and no other byte.
pub proof fn lemma_each_byte_read_once(start: int, lens: Seq<int>)
    requires
        grows_from(start, lens),
    ensures
        bytes_read(reads_over(start, lens)) == span(start, final_len(start, lens)),
    decreases lens.len(),
{
    if lens.len() > 0 {
        let l0 = lens[0];
        let rest = lens.drop_first();
        assert(grows_from(l0, rest)) by {
            assert forall|i: int| 0 <= i < rest.len() implies l0 <= #[trigger] rest[i] by {
                assert(rest[i] == lens[i + 1]);
            }
            assert forall|i: int, j: int| 0 <= i <= j < rest.len() implies rest[i] <= rest[j] by {
                assert(rest[i] == lens[i + 1] && rest[j] == lens[j + 1]);
            }
        }
        assert(grows_from(start, rest)) by {
            assert forall|i: int| 0 <= i < rest.len() implies start <= #[trigger] rest[i] by {
                assert(rest[i] == lens[i + 1]);
            }
        }
        if l0 > start {
            lemma_each_byte_read_once(l0, rest);
            let reads = reads_over(start, lens);
            assert(reads == seq![(start, l0)] + reads_over(l0, rest));
            assert(reads.drop_first() =~= reads_over(l0, rest));
            if rest.len() > 0 {
                assert(rest.last() == lens.last());
            }
            assert(span(start, l0) + span(l0, final_len(l0, rest)) =~= span(
                start,
                final_len(start, lens),
            ));
        } else {
            lemma_each_byte_read_once(start, rest);
            assert(reads_over(start, lens) =~= reads_over(start, rest));
            if rest.len() > 0 {
                assert(rest.last() == lens.last());
            }
        }
    }
}

/// On a log that only grows, no poll reads a byte that was already there when
/// watching began.
pub proof fn lemma_history_never_read(start: int, lens: Seq<int>)
    requires
        grows_from(start, lens),
    ensures
        forall|i: int|
            0 <= i < bytes_read(reads_over(start, lens)).len() ==> start <= #[trigger] bytes_read(
                reads_over(start, lens),
            )[i],
{
    lemma_each_byte_read_once(start, lens);
}

/// The watcher of one player's chat in a growing log: its configuration and the
/// number of log bytes already consumed.
pub struct LogWatcher {
    config: LogWatcherConfig,
    offset: u64,
}

impl LogWatcher {
    /// The number of log bytes consumed so far.
    pub closed spec fn position(&self) -> int {
        self.offset as int
    }

    /// The name of the player whose chat is watched.
    pub closed spec fn user_name(&self) -> Seq<char> {
        self.config.user_name@
    }

    /// The configuration this watcher was made with.
    pub fn config(&self) -> (r: &LogWatcherConfig)
        ensures
            r.user_name@ == self.user_name(),
    {
        &self.config
    }

    /// A watcher of a log that holds `file_len` bytes now: all of them count as
    /// consumed, so what was there before watching began is never delivered.
    pub fn new(config: LogWatcherConfig, file_len: u64) -> (r: Self)
        ensures
            r.user_name() == config.user_name@,
            r.position() == file_len,
    {
        LogWatcher { config, offset: file_len }
    }

    /// The number of log bytes consumed so far.
    pub fn offset(&self) -> (r: u64)
        ensures
            r == self.position(),
    {
        self.offset
    }

    /// The message of the configured player on `line`, if it is one of their chat lines.
    pub fn extract_message(&self, line: &str) -> (r: Option<String>)
        ensures
            match chat_message(self.user_name(), line@) {
                None => r is None,
                Some(m) => r matches Some(s) && s@ == m,
            },
    {
        extract_chat_message(self.config.user_name.as_str(), line)
    }

    /// What to read after seeing that the log holds `file_len` bytes; a log
    /// shorter than what was consumed is taken as rotated and read from its start.
    pub fn poll(&mut self, file_len: u64) -> (r: Option<ReadRange>)
        ensures
            final(self).user_name() == old(self).user_name(),
            final(self).position() == resume_from(old(self).position(), file_len as int),
            match pending_read(old(self).position(), file_len as int) {
                None => r is None,
                Some(p) => r matches Some(rr) && rr.start == p.0 && rr.end == p.1,
            },
    {
        if file_len < self.offset {
            self.offset = 0;
        }
        if file_len > self.offset {
            Some(ReadRange { start: self.offset, end: file_len })
        } else {
            None
        }
    }

    /// The non-empty chat messages of the configured player in the bytes of a read.
    pub fn messages_in_chunk(&self, chunk: &[u8]) -> (r: Vec<String>)
        ensures
            r.deep_view() == messages_of(self.user_name(), lossy_utf8(chunk@)),
    {
        messages_from_bytes(self.config.user_name.as_str(), chunk)
    }

    /// Marks the bytes of `range` as consumed, once all of its messages were sent.
    pub fn commit(&mut self, range: ReadRange)
        requires
            old(self).position() == range.start,
            range.start <= range.end,
        ensures
            final(self).user_name() == old(self).user_name(),
            final(self).position() == range.end,
    {
        self.offset = range.end;
    }
}

} // verus!
