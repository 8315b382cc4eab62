//! Playback decisions: which clips can be played, how long each one plays, and
//! when the push-to-talk key goes down and comes back up.

use vstd::prelude::*;

use crate::text::chars_of;

verus! {

/// Why one clip was not played. None of these stops playback of later clips.
#[derive(Debug, Clone, Copy, PartialEq, Eq, Structural)]
pub enum Error {
    MissingExtension,
    UnsupportedExtension,
    WavDurationNotFound,
    Mp3DurationNotFound,
}

/// The audio containers that can be played.
#[derive(Debug, Clone, Copy, PartialEq, Eq, Structural)]
pub enum ClipFormat {
    Wav,
    Mp3,
}

/// The format named by a file extension: `wav` and `mp3` are known.
pub open spec fn format_of(extension: Option<Seq<char>>) -> Result<ClipFormat, Error> {
    match extension {
        None => Err(Error::MissingExtension),
        Some(e) => if e == seq!['w', 'a', 'v'] {
            Ok(ClipFormat::Wav)
        } else if e == seq!['m', 'p', '3'] {
            Ok(ClipFormat::Mp3)
        } else {
            Err(Error::UnsupportedExtension)
        },
    }
}

/// The format of a clip whose file has the extension `extension`.
pub fn clip_format(extension: Option<&str>) -> (r: Result<ClipFormat, Error>)
    ensures
        r == format_of(
            match extension {
                None => None,
                Some(e) => Some(e@),
            },
        ),
{
    match extension {
        None => Err(Error::MissingExtension),
        Some(e) => {
            let cs = chars_of(e);
            if cs.len() == 3 && cs[0] == 'w' && cs[1] == 'a' && cs[2] == 'v' {
                assert(e@ =~= seq!['w', 'a', 'v']);
                Ok(ClipFormat::Wav)
            } else if cs.len() == 3 && cs[0] == 'm' && cs[1] == 'p' && cs[2] == '3' {
                assert(e@ =~= seq!['m', 'p', '3']);
                Ok(ClipFormat::Mp3)
            } else {
                assert(cs@ != seq!['w', 'a', 'v'] && cs@ != seq!['m', 'p', '3']) by {
                    if cs@ == seq!['w', 'a', 'v'] {
                        assert(cs@[0] == 'w' && cs@[1] == 'a' && cs@[2] == 'v');
                    }
                    if cs@ == seq!['m', 'p', '3'] {
                        assert(cs@[0] == 'm' && cs@[1] == 'p' && cs@[2] == '3');
                    }
                }
                Err(Error::UnsupportedExtension)
            }
        },
    }
}

/// Nanoseconds in a second.
pub const NANOS_PER_SEC: u128 = 1_000_000_000;

/// The duration of one tick of a stream's timestamps: `numer / denom` seconds.
#[derive(Debug, Clone, Copy, PartialEq, Eq, Structural)]
pub struct TimeBase {
    pub numer: u32,
    pub denom: u32,
}

/// What a clip's container tells about its length.
#[derive(Debug, Clone, Copy, PartialEq, Eq, Structural)]
pub enum ClipTiming {
    /// The total duration that the container reports.
    Wav { total_nanos: u128 },
    /// The stream's frame count and time base.
    Mp3 { n_frames: u64, time_base: TimeBase },
}

/// The timing is one a clip can have: a time base has a non-zero denominator.
pub open spec fn timing_is_valid(t: ClipTiming) -> bool {
    match t {
        ClipTiming::Wav { .. } => true,
        ClipTiming::Mp3 { time_base, .. } => time_base.denom > 0,
    }
}

/// How long a clip plays, in whole nanoseconds: the reported total for `wav`;
/// `n_frames * numer / denom` seconds for `mp3`.
pub open spec fn sleep_nanos(t: ClipTiming) -> int {
    match t {
        ClipTiming::Wav { total_nanos } => total_nanos as int,
        ClipTiming::Mp3 { n_frames, time_base } => (n_frames as int) * (time_base.numer as int)
            * (NANOS_PER_SEC as int) / (time_base.denom as int),
    }
}

/// How long to wait, in nanoseconds, while a clip with this timing plays. For
/// `mp3` it is `n_frames * numer / denom` seconds, rounded down to the nanosecond.
pub fn playback_nanos(timing: &ClipTiming) -> (r: u128)
    requires
        timing_is_valid(*timing),
    ensures
        r == sleep_nanos(*timing),
        match *timing {
            ClipTiming::Wav { total_nanos } => r == total_nanos,
            ClipTiming::Mp3 { n_frames, time_base } => {
                let exact = (n_frames as int) * (time_base.numer as int) * (NANOS_PER_SEC as int);
                &&& r * (time_base.denom as int) <= exact
                &&& exact < (r + 1) * (time_base.denom as int)
            },
        },
{
    match *timing {
        ClipTiming::Wav { total_nanos } => total_nanos,
        ClipTiming::Mp3 { n_frames, time_base } => {
            let f = n_frames as u128;
            let n = time_base.numer as u128;
            let d = time_base.denom as u128;
            assert(f * n <= 0xffff_ffff_ffff_ffffu128 * 0xffff_ffffu128) by (nonlinear_arith)
                requires
                    f <= 0xffff_ffff_ffff_ffffu128,
                    n <= 0xffff_ffffu128,
            ;
            let fnum = f * n;
            assert(fnum * NANOS_PER_SEC <= 0xffff_ffff_ffff_ffffu128 * 0xffff_ffffu128
                * 1_000_000_000u128) by (nonlinear_arith)
                requires
                    fnum <= 0xffff_ffff_ffff_ffffu128 * 0xffff_ffffu128,
            ;
            let exact = fnum * NANOS_PER_SEC;
            let q = exact / d;
            assert(q * d <= exact && exact < (q + 1) * d) by (nonlinear_arith)
                requires
                    d > 0,
                    q == exact / d,
            ;
            q
        },
    }
}

/// The timing of a `wav` clip from the total duration its decoder reports, if any.
pub fn wav_timing(total_nanos: Option<u128>) -> (r: Result<ClipTiming, Error>)
    ensures
        match total_nanos {
            None => r == Err::<ClipTiming, Error>(Error::WavDurationNotFound),
            Some(t) => r == Ok::<ClipTiming, Error>(ClipTiming::Wav { total_nanos: t }),
        },
{
    match total_nanos {
        None => Err(Error::WavDurationNotFound),
        Some(t) => Ok(ClipTiming::Wav { total_nanos: t }),
    }
}

/// The timing of an `mp3` clip from what probing its default track found: both
/// the frame count and a time base with a non-zero denominator are needed.
pub fn mp3_timing(n_frames: Option<u64>, time_base: Option<TimeBase>) -> (r: Result<
    ClipTiming,
    Error,
>)
    ensures
        r matches Ok(t) ==> timing_is_valid(t),
        match (n_frames, time_base) {
            (Some(n), Some(tb)) => if tb.denom > 0 {
                r == Ok::<ClipTiming, Error>(ClipTiming::Mp3 { n_frames: n, time_base: tb })
            } else {
                r == Err::<ClipTiming, Error>(Error::Mp3DurationNotFound)
            },
            _ => r == Err::<ClipTiming, Error>(Error::Mp3DurationNotFound),
        },
{
    match (n_frames, time_base) {
        (Some(n), Some(tb)) => {
            if tb.denom > 0 {
                Ok(ClipTiming::Mp3 { n_frames: n, time_base: tb })
            } else {
                Err(Error::Mp3DurationNotFound)
            }
        },
        _ => Err(Error::Mp3DurationNotFound),
    }
}

/// Whether the device at position `i` is named `wanted`; a device whose name
/// could not be read matches no name.
pub open spec fn device_named(names: Seq<Option<String>>, i: int, wanted: Seq<char>) -> bool {
    names[i] matches Some(n) && n@ == wanted
}

/// The position of the first output device named `wanted`, among devices whose
/// names are `names` in enumeration order; `None` when no device has that name.
pub fn find_device(names: &Vec<Option<String>>, wanted: &str) -> (r: Option<usize>)
    ensures
        match r {
            Some(i) => {
                &&& i < names.len()
                &&& device_named(names@, i as int, wanted@)
                &&& forall|j: int| 0 <= j < i ==> !device_named(names@, j, wanted@)
            },
            None => forall|j: int| 0 <= j < names.len() ==> !device_named(names@, j, wanted@),
        },
{
    let w = String::from_str(wanted);
    let mut i: usize = 0;
    while i < names.len()
        invariant
            i <= names.len(),
            w@ == wanted@,
            forall|j: int| 0 <= j < i ==> !device_named(names@, j, wanted@),
        decreases names.len() - i,
    {
        match &names[i] {
            Some(n) => {
                if *n == w {
                    return Some(i);
                }
            },
            None => {},
        }
        i = i + 1;
    }
    None
}

/// A change to make to the push-to-talk key.
#[derive(Debug, Clone, Copy, PartialEq, Eq, Structural)]
pub enum KeySignal {
    Press,
    Release,
}

/// What the controller does, in the order it does it.
#[derive(Debug, Clone, Copy, PartialEq, Eq, Structural)]
pub enum ControllerAction {
    PressKey,
    PlayClip,
    ReleaseKey,
}

/// What the controller observes.
#[derive(Debug, Clone, Copy, PartialEq, Eq, Structural)]
pub enum ControllerEvent {
    /// A clip was taken from the inbound queue.
    ClipReceived,
    /// The current clip finished or was skipped; whether the inbound queue is empty now.
    ClipDone { queue_empty: bool },
}

/// The key state and the actions that follow an event.
pub open spec fn controller_step(held: bool, e: ControllerEvent) -> (bool, Seq<ControllerAction>) {
    match e {
        ControllerEvent::ClipReceived => if held {
            (true, seq![ControllerAction::PlayClip])
        } else {
            (true, seq![ControllerAction::PressKey, ControllerAction::PlayClip])
        },
        ControllerEvent::ClipDone { queue_empty } => if held && queue_empty {
            (false, seq![ControllerAction::ReleaseKey])
        } else {
            (held, seq![])
        },
    }
}

/// The actions of the controller over `events`, from the key state `held`.
pub open spec fn controller_trace(held: bool, events: Seq<ControllerEvent>) -> Seq<ControllerAction>
    decreases events.len(),
{
    if events.len() == 0 {
        seq![]
    } else {
        let (h, acts) = controller_step(held, events[0]);
        acts + controller_trace(h, events.drop_first())
    }
}

/// Along `trace`, from the key state `held`: the key is pressed only when it is up,
/// released only when it is down, and every clip plays while it is down.
pub open spec fn keyed_properly(held: bool, trace: Seq<ControllerAction>) -> bool
    decreases trace.len(),
{
    if trace.len() == 0 {
        true
    } else {
        match trace[0] {
            ControllerAction::PressKey => !held && keyed_properly(true, trace.drop_first()),
            ControllerAction::ReleaseKey => held && keyed_properly(false, trace.drop_first()),
            ControllerAction::PlayClip => held && keyed_properly(held, trace.drop_first()),
        }
    }
}

proof fn lemma_step_then(held: bool, e: ControllerEvent, rest: Seq<ControllerAction>)
    requires
        keyed_properly(controller_step(held, e).0, rest),
    ensures
        keyed_properly(held, controller_step(held, e).1 + rest),
{
    let acts = controller_step(held, e).1;
    let all = acts + rest;
    match e {
        ControllerEvent::ClipReceived => {
            if held {
                assert(all[0] == ControllerAction::PlayClip);
                assert(all.drop_first() =~= rest);
            } else {
                assert(all[0] == ControllerAction::PressKey);
                assert(all.drop_first()[0] == ControllerAction::PlayClip);
                assert(all.drop_first().drop_first() =~= rest);
                assert(keyed_properly(true, all.drop_first()));
            }
        },
        ControllerEvent::ClipDone { queue_empty } => {
            if held && queue_empty {
                assert(all[0] == ControllerAction::ReleaseKey);
                assert(all.drop_first() =~= rest);
            } else {
                assert(all =~= rest);
            }
        },
    }
}

/// Whatever clips arrive and whenever the queue empties, the key is never pressed
/// twice without a release between, never released while up, and every clip
/// plays while it is down.
pub proof fn lemma_key_alternates(held: bool, events: Seq<ControllerEvent>)
    ensures
        keyed_properly(held, controller_trace(held, events)),
    decreases events.len(),
{
    if events.len() > 0 {
        let h = controller_step(held, events[0]).0;
        lemma_key_alternates(h, events.drop_first());
        lemma_step_then(held, events[0], controller_trace(h, events.drop_first()));
    }
}

/// The push-to-talk key as the controller holds it.
pub struct PushToTalk {
    held: bool,
}

impl PushToTalk {
    /// Whether the key is down.
    pub closed spec fn is_held(&self) -> bool {
        self.held
    }

    /// The key starts up.
    pub fn new() -> (r: Self)
        ensures
            !r.is_held(),
    {
        PushToTalk { held: false }
    }

    /// Whether the key is down.
    pub fn is_key_held(&self) -> (r: bool)
        ensures
            r == self.is_held(),
    {
        self.held
    }

    /// A clip was received and is about to play: the key goes down first unless
    /// it already is.
    pub fn on_clip_received(&mut self) -> (r: Option<KeySignal>)
        ensures
            final(self).is_held() == controller_step(
                old(self).is_held(),
                ControllerEvent::ClipReceived,
            ).0,
            final(self).is_held(),
            r == (if old(self).is_held() {
                None
            } else {
                Some(KeySignal::Press)
            }),
    {
        if self.held {
            None
        } else {
            self.held = true;
            Some(KeySignal::Press)
        }
    }

    /// The current clip finished or was skipped: the key comes up if it is down
    /// and nothing more is queued, and stays as it is otherwise.
    pub fn on_clip_done(&mut self, queue_empty: bool) -> (r: Option<KeySignal>)
        ensures
            final(self).is_held() == controller_step(
                old(self).is_held(),
                ControllerEvent::ClipDone { queue_empty },
            ).0,
            r == (if old(self).is_held() && queue_empty {
                Some(KeySignal::Release)
            } else {
                None
            }),
    {
        if self.held && queue_empty {
            self.held = false;
            Some(KeySignal::Release)
        } else {
            None
        }
    }
}

} // verus!
