//! The speech synthesis stage: messages are synthesized one at a time, in order;
//! a failed synthesis drops its message only.

use vstd::prelude::*;

verus! {

/// What ends the synthesis stage, or what one message's synthesis ran into.
#[derive(Debug, PartialEq, Eq, Structural)]
pub enum Error<E> {
    /// The backend could not synthesize one message; later messages go on.
    CouldNotGetSpeech(E),
    /// The playback stage no longer takes clips; the stage ends.
    ReceiverClosed,
}

/// What the stage does with the outcome of one synthesis.
#[derive(Debug, PartialEq, Eq, Structural)]
pub enum SynthesisStep<C, E> {
    /// Send the clip on to playback.
    Forward(C),
    /// Drop this message and go on with the next.
    Skip(Error<E>),
}

/// The step that follows a synthesis outcome.
pub open spec fn step_for<C, E>(outcome: Result<C, E>) -> SynthesisStep<C, E> {
    match outcome {
        Ok(c) => SynthesisStep::Forward(c),
        Err(e) => SynthesisStep::Skip(Error::CouldNotGetSpeech(e)),
    }
}

/// The clips sent on to playback for successive synthesis outcomes, in order.
pub open spec fn forwarded<C, E>(outcomes: Seq<Result<C, E>>) -> Seq<C>
    decreases outcomes.len(),
{
    if outcomes.len() == 0 {
        seq![]
    } else {
        let rest = forwarded(outcomes.drop_last());
        match step_for(outcomes.last()) {
            SynthesisStep::Forward(c) => rest.push(c),
            SynthesisStep::Skip(_) => rest,
        }
    }
}

proof fn lemma_forwarded_concat<C, E>(a: Seq<Result<C, E>>, b: Seq<Result<C, E>>)
    ensures
        forwarded(a + b) == forwarded(a) + forwarded(b),
    decreases b.len(),
{
    if b.len() == 0 {
        assert(a + b =~= a);
        assert(forwarded(a) + forwarded(b) =~= forwarded(a));
    } else {
        lemma_forwarded_concat(a, b.drop_last());
        assert((a + b).drop_last() =~= a + b.drop_last());
        assert((a + b).last() == b.last());
        match step_for(b.last()) {
            SynthesisStep::Forward(c) => {
                assert(forwarded(a) + forwarded(b.drop_last()).push(c) =~= (forwarded(a)
                    + forwarded(b.drop_last())).push(c));
            },
            SynthesisStep::Skip(_) => {},
        }
    }
}

/// A failed synthesis drops its own message only: every clip synthesized before
/// it and after it is still sent on, in order.
pub proof fn lemma_failure_does_not_halt<C, E>(outcomes: Seq<Result<C, E>>, i: int)
    requires
        0 <= i < outcomes.len(),
        outcomes[i] is Err,
    ensures
        forwarded(outcomes) == forwarded(outcomes.take(i)) + forwarded(outcomes.skip(i + 1)),
{
    let fail = outcomes.subrange(i, i + 1);
    assert(outcomes =~= outcomes.take(i) + (fail + outcomes.skip(i + 1)));
    lemma_forwarded_concat(outcomes.take(i), fail + outcomes.skip(i + 1));
    lemma_forwarded_concat(fail, outcomes.skip(i + 1));
    assert(fail.len() == 1 && fail.last() == outcomes[i]);
    assert(fail.drop_last() =~= Seq::<Result<C, E>>::empty());
    assert(forwarded(fail.drop_last()) =~= Seq::<C>::empty());
    assert(step_for(fail.last()) is Skip);
    assert(forwarded(fail) =~= Seq::<C>::empty());
    assert(forwarded(fail) + forwarded(outcomes.skip(i + 1)) =~= forwarded(outcomes.skip(i + 1)));
}

/// What to do with the outcome of one message's synthesis: forward the clip,
/// or drop the message and go on.
pub fn on_speech<C, E>(outcome: Result<C, E>) -> (r: SynthesisStep<C, E>)
    ensures
        r == step_for(outcome),
{
    match outcome {
        Ok(c) => SynthesisStep::Forward(c),
        Err(e) => SynthesisStep::Skip(Error::CouldNotGetSpeech(e)),
    }
}

/// The end of the stage when a clip could not be handed to playback.
pub fn on_send_failed<E>() -> (r: Error<E>)
    ensures
        r == Error::<E>::ReceiverClosed,
{
    Error::ReceiverClosed
}

/// Whether `text` can be sent for synthesis: a chat message is never empty.
pub fn is_speakable(text: &str) -> (r: bool)
    ensures
        r == (text@.len() > 0),
{
    !text.is_empty()
}

} // verus!
