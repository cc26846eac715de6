//! A counting admission gate.
//!
//! A `Limiter` hands out at most `limit` tokens at a time.  A token is taken
//! before a probe starts and given back when the probe has ended, however it
//! ended.

use vstd::prelude::*;

verus! {

/// How many probes may be under way at once.
pub const PROBE_LIMIT: usize = 1000;

pub struct Limiter {
    limit: usize,
    held: usize,
}

impl Limiter {
    /// The number of tokens that exist.
    pub closed spec fn limit(&self) -> nat {
        self.limit as nat
    }

    /// The number of tokens that are taken and not yet given back.
    pub closed spec fn held(&self) -> nat {
        self.held as nat
    }

    /// Never more tokens are out than exist.
    pub open spec fn wf(&self) -> bool {
        self.held() <= self.limit()
    }

    /// A gate with `limit` tokens, all of them free.
    pub fn new(limit: usize) -> (gate: Limiter)
        ensures
            gate.wf(),
            gate.limit() == limit,
            gate.held() == 0,
    {
        Limiter { limit, held: 0 }
    }

    pub fn capacity(&self) -> (n: usize)
        ensures
            n == self.limit(),
    {
        self.limit
    }

    pub fn in_use(&self) -> (n: usize)
        ensures
            n == self.held(),
    {
        self.held
    }

    /// The number of tokens that can still be taken.
    pub fn available(&self) -> (n: usize)
        requires
            self.wf(),
        ensures
            n == self.limit() - self.held(),
    {
        self.limit - self.held
    }

    /// Takes a token if one is free.  A caller that is refused waits until a
    /// token has been given back and asks again.
    pub fn try_acquire(&mut self) -> (granted: bool)
        requires
            old(self).wf(),
        ensures
            final(self).wf(),
            final(self).limit() == old(self).limit(),
            granted <==> old(self).held() < old(self).limit(),
            granted ==> final(self).held() == old(self).held() + 1,
            !granted ==> final(self).held() == old(self).held(),
    {
        if self.held < self.limit {
            self.held = self.held + 1;
            true
        } else {
            false
        }
    }

    /// Gives a token back.  Where none is out, nothing changes and the
    /// answer is `false`.
    pub fn release(&mut self) -> (released: bool)
        requires
            old(self).wf(),
        ensures
            final(self).wf(),
            final(self).limit() == old(self).limit(),
            released <==> old(self).held() > 0,
            released ==> final(self).held() == old(self).held() - 1,
            !released ==> final(self).held() == old(self).held(),
    {
        if self.held > 0 {
            self.held = self.held - 1;
            true
        } else {
            false
        }
    }
}

/// A gate in good order never has more tokens out than it was made with.
/// Every operation keeps a gate in good order, so this holds at every moment.
pub proof fn lemma_tokens_bounded(gate: Limiter)
    requires
        gate.wf(),
    ensures
        gate.held() <= gate.limit(),
{
}

} // verus!
