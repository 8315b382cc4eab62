//! The fan-out building block: a node applies a processor to each inbound item
//! and hands what it yields to every outbound queue, best effort.

use vstd::prelude::*;

verus! {

/// A transformation applied to each item a node receives; `None` forwards nothing.
pub trait EventProcessor<I, O>: Send + Sync + 'static {
    /// Whether the processor may be applied to `input`.
    spec fn accepts(&self, input: I) -> bool;

    /// Whether `output` is a result the processor may give for `input`.
    spec fn yields(&self, input: I, output: Option<O>) -> bool;

    fn process(&self, input: I) -> (r: Option<O>)
        requires
            self.accepts(input),
        ensures
            self.yields(input, r),
    ;
}

impl<I, O, F> EventProcessor<I, O> for F where F: Fn(I) -> Option<O> + Send + Sync + 'static {
    open spec fn accepts(&self, input: I) -> bool {
        self.requires((input,))
    }

    open spec fn yields(&self, input: I, output: Option<O>) -> bool {
        self.ensures((input,), output)
    }

    fn process(&self, input: I) -> (r: Option<O>) {
        (self)(input)
    }
}

/// The outbound queues, by position, that receive a copy of a processed item:
/// all of them, in order, when the processor yielded a value; none otherwise.
pub open spec fn targets(produced: bool, n_outputs: nat) -> Seq<usize> {
    if produced {
        Seq::new(n_outputs, |i: int| i as usize)
    } else {
        seq![]
    }
}

/// The outbound queues that one processed item goes to. A failed send to one of
/// them skips that queue only: the item still goes to the others.
pub fn delivery_targets(produced: bool, n_outputs: usize) -> (r: Vec<usize>)
    ensures
        r@ == targets(produced, n_outputs as nat),
{
    let mut r: Vec<usize> = Vec::new();
    if produced {
        let mut i: usize = 0;
        while i < n_outputs
            invariant
                i <= n_outputs,
                r@ == Seq::new(i as nat, |j: int| j as usize),
            decreases n_outputs - i,
        {
            r.push(i);
            i = i + 1;
            assert(r@ =~= Seq::new(i as nat, |j: int| j as usize));
        }
    }
    assert(r@ =~= targets(produced, n_outputs as nat));
    r
}

} // verus!
