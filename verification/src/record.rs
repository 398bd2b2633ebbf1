//! Calls to the outside, written down one behind the other.

use vstd::prelude::*;

verus! {

/// Something outside that is called, with the calls that were made of it and their answers.
pub struct Recorder<F, A, R> {
    call: F,
    log: Ghost<Seq<(A, R)>>,
}

impl<A, R, F: FnMut(A) -> R> Recorder<F, A, R> {
    /// The calls that were made, in their order, each with its answer.
    pub closed spec fn log(self) -> Seq<(A, R)> {
        self.log@
    }

    /// Whether every call can be made.
    pub closed spec fn takes_all(self) -> bool {
        forall|a: A| call_requires(self.call, (a,))
    }

    /// Nothing was called yet.
    pub fn new(call: F) -> (r: Self)
        requires
            forall|a: A| call_requires(call, (a,)),
        ensures
            r.takes_all(),
            r.log() == Seq::<(A, R)>::empty(),
    {
        Recorder { call, log: Ghost(Seq::empty()) }
    }

    /// Makes a call.
    pub fn ask(&mut self, a: A) -> (r: R)
        requires
            old(self).takes_all(),
        ensures
            final(self).takes_all(),
            final(self).log() == old(self).log().push((a, r)),
    {
        let ghost call = a;
        let r = (self.call)(a);
        self.log = Ghost(self.log@.push((call, r)));
        r
    }
}

} // verus!
