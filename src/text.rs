//! Character-level text helpers: whitespace, trimming and line splitting,
//! stated over `Seq<char>` and carried out on `Vec<char>`.

use vstd::prelude::*;

verus! {

/// The Unicode `White_Space` property.
pub open spec fn is_white_space(c: char) -> bool {
    let u = c as u32;
    (9 <= u && u <= 13) || u == 0x20 || u == 0x85 || u == 0xA0 || u == 0x1680
        || (0x2000 <= u && u <= 0x200A) || u == 0x2028 || u == 0x2029 || u == 0x202F
        || u == 0x205F || u == 0x3000
}

/// `s` without its leading whitespace.
pub open spec fn trim_start(s: Seq<char>) -> Seq<char>
    decreases s.len(),
{
    if s.len() > 0 && is_white_space(s[0]) {
        trim_start(s.drop_first())
    } else {
        s
    }
}

/// `s` without its trailing whitespace.
pub open spec fn trim_end(s: Seq<char>) -> Seq<char>
    decreases s.len(),
{
    if s.len() > 0 && is_white_space(s.last()) {
        trim_end(s.drop_last())
    } else {
        s
    }
}

/// `s` without leading and trailing whitespace.
pub open spec fn trim(s: Seq<char>) -> Seq<char> {
    trim_end(trim_start(s))
}

/// Whether `p` is a prefix of `s`.
pub open spec fn starts_with(s: Seq<char>, p: Seq<char>) -> bool {
    p.len() <= s.len() && s.take(p.len() as int) == p
}

/// Number of characters before the first `'\n'` of `s` (all of `s` if it has none).
pub open spec fn newline_index(s: Seq<char>) -> nat
    decreases s.len(),
{
    if s.len() == 0 || s[0] == '\n' {
        0
    } else {
        1 + newline_index(s.drop_first())
    }
}

/// A line without the `'\r'` of a `"\r\n"` line ending.
pub open spec fn strip_cr(l: Seq<char>) -> Seq<char> {
    if l.len() > 0 && l.last() == '\r' {
        l.drop_last()
    } else {
        l
    }
}

/// The lines of `s`: split at `"\n"` or `"\r\n"`; the last line ending is optional,
/// and an empty text has no lines.
pub open spec fn lines_of(s: Seq<char>) -> Seq<Seq<char>>
    decreases s.len(),
{
    if s.len() == 0 {
        seq![]
    } else {
        let i = newline_index(s);
        if i < s.len() {
            seq![strip_cr(s.take(i as int))] + lines_of(s.skip(i + 1 as int))
        } else {
            seq![s]
        }
    }
}

/// Whether `c` has the Unicode `White_Space` property.
pub fn is_white_space_char(c: char) -> (r: bool)
    ensures
        r == is_white_space(c),
{
    let u = c as u32;
    (9 <= u && u <= 13) || u == 0x20 || u == 0x85 || u == 0xA0 || u == 0x1680
        || (0x2000 <= u && u <= 0x200A) || u == 0x2028 || u == 0x2029 || u == 0x202F
        || u == 0x205F || u == 0x3000
}

/// The characters of `s`, in order.
pub fn chars_of(s: &str) -> (r: Vec<char>)
    ensures
        r@ == s@,
{
    let mut v: Vec<char> = Vec::new();
    for c in it: s.chars()
        invariant
            v@ == it.seq().take(it.index()),
    {
        v.push(c);
    }
    assert(v@ =~= s@);
    v
}

/// The bounds, within `cs[lo..hi]`, of that range with its surrounding whitespace removed.
pub fn trim_bounds(cs: &Vec<char>, lo: usize, hi: usize) -> (r: (usize, usize))
    requires
        lo <= hi <= cs.len(),
    ensures
        lo <= r.0 <= r.1 <= hi,
        cs@.subrange(r.0 as int, r.1 as int) == trim(cs@.subrange(lo as int, hi as int)),
{
    let mut a = lo;
    while a < hi && is_white_space_char(cs[a])
        invariant
            lo <= a <= hi <= cs.len(),
            trim_start(cs@.subrange(lo as int, hi as int)) == trim_start(
                cs@.subrange(a as int, hi as int),
            ),
        decreases hi - a,
    {
        assert(cs@.subrange(a + 1, hi as int) =~= cs@.subrange(a as int, hi as int).drop_first());
        a = a + 1;
    }
    assert(trim_start(cs@.subrange(a as int, hi as int)) == cs@.subrange(a as int, hi as int));
    let mut b = hi;
    while b > a && is_white_space_char(cs[b - 1])
        invariant
            lo <= a <= b <= hi <= cs.len(),
            trim_end(cs@.subrange(a as int, hi as int)) == trim_end(
                cs@.subrange(a as int, b as int),
            ),
        decreases b - a,
    {
        assert(cs@.subrange(a as int, b - 1) =~= cs@.subrange(a as int, b as int).drop_last());
        b = b - 1;
    }
    assert(trim_end(cs@.subrange(a as int, b as int)) == cs@.subrange(a as int, b as int));
    (a, b)
}

/// Whether `cs[lo..hi]` begins with `p`.
pub fn range_starts_with(cs: &Vec<char>, lo: usize, hi: usize, p: &Vec<char>) -> (r: bool)
    requires
        lo <= hi <= cs.len(),
    ensures
        r == starts_with(cs@.subrange(lo as int, hi as int), p@),
{
    if p.len() > hi - lo {
        return false;
    }
    let mut j: usize = 0;
    while j < p.len()
        invariant
            j <= p.len() <= hi - lo,
            lo <= hi <= cs.len(),
            forall|t: int| 0 <= t < j ==> cs@[lo + t] == p@[t],
        decreases p.len() - j,
    {
        if cs[lo + j] != p[j] {
            assert(cs@.subrange(lo as int, hi as int).take(p.len() as int)[j as int] != p@[j as int]);
            return false;
        }
        j = j + 1;
    }
    assert(cs@.subrange(lo as int, hi as int).take(p.len() as int) =~= p@);
    true
}

/// The lines of `cs`, as `[start, end)` ranges of it.
pub fn line_ranges(cs: &Vec<char>) -> (r: Vec<(usize, usize)>)
    ensures
        r@.len() == lines_of(cs@).len(),
        forall|k: int|
            #![trigger r@[k]]
            0 <= k < r@.len() ==> {
                &&& r@[k].0 <= r@[k].1 <= cs.len()
                &&& cs@.subrange(r@[k].0 as int, r@[k].1 as int) == lines_of(cs@)[k]
            },
{
    let n = cs.len();
    let mut out: Vec<(usize, usize)> = Vec::new();
    let mut start: usize = 0;
    assert(cs@.skip(0) =~= cs@);
    assert(out@.map_values(|p: (usize, usize)| cs@.subrange(p.0 as int, p.1 as int)) =~= Seq::<
        Seq<char>,
    >::empty());
    while start < n
        invariant
            n == cs.len(),
            start <= n,
            lines_of(cs@) == out@.map_values(
                |p: (usize, usize)| cs@.subrange(p.0 as int, p.1 as int),
            ) + lines_of(cs@.skip(start as int)),
            forall|k: int| #![trigger out@[k]] 0 <= k < out@.len() ==> out@[k].0 <= out@[k].1 <= n,
        decreases n - start,
    {
        let ghost rest = cs@.skip(start as int);
        let mut i = start;
        while i < n && cs[i] != '\n'
            invariant
                start <= i <= n == cs.len(),
                rest == cs@.skip(start as int),
                newline_index(rest) == (i - start) + newline_index(cs@.skip(i as int)),
            decreases n - i,
        {
            assert(cs@.skip(i + 1) =~= cs@.skip(i as int).drop_first());
            i = i + 1;
        }
        assert(newline_index(rest) == i - start);
        let ghost before = out@.map_values(
            |p: (usize, usize)| cs@.subrange(p.0 as int, p.1 as int),
        );
        if i < n {
            let end = if i > start && cs[i - 1] == '\r' {
                i - 1
            } else {
                i
            };
            assert(rest.take(i - start) =~= cs@.subrange(start as int, i as int));
            assert(strip_cr(rest.take(i - start)) =~= cs@.subrange(start as int, end as int));
            assert(rest.skip(i - start + 1) =~= cs@.skip(i + 1));
            out.push((start, end));
            assert(out@.map_values(|p: (usize, usize)| cs@.subrange(p.0 as int, p.1 as int))
                =~= before.push(cs@.subrange(start as int, end as int)));
            assert(lines_of(cs@) =~= out@.map_values(
                |p: (usize, usize)| cs@.subrange(p.0 as int, p.1 as int),
            ) + lines_of(cs@.skip(i + 1)));
            start = i + 1;
        } else {
            assert(rest =~= cs@.subrange(start as int, n as int));
            out.push((start, n));
            assert(out@.map_values(|p: (usize, usize)| cs@.subrange(p.0 as int, p.1 as int))
                =~= before.push(cs@.subrange(start as int, n as int)));
            assert(cs@.skip(n as int) =~= Seq::<char>::empty());
            assert(lines_of(cs@) =~= out@.map_values(
                |p: (usize, usize)| cs@.subrange(p.0 as int, p.1 as int),
            ) + lines_of(cs@.skip(n as int)));
            start = n;
        }
    }
    assert(cs@.skip(n as int) =~= Seq::<char>::empty());
    assert(lines_of(cs@) =~= out@.map_values(
        |p: (usize, usize)| cs@.subrange(p.0 as int, p.1 as int),
    ));
    let ghost all = out@.map_values(|p: (usize, usize)| cs@.subrange(p.0 as int, p.1 as int));
    assert forall|k: int| #![trigger out@[k]] 0 <= k < out@.len() implies out@[k].0 <= out@[k].1 <= n
        && cs@.subrange(out@[k].0 as int, out@[k].1 as int) == lines_of(cs@)[k] by {
        assert(all[k] == cs@.subrange(out@[k].0 as int, out@[k].1 as int));
    }
    out
}

} // verus!
