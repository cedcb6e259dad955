use vstd::prelude::*;

verus! {

/// A count raised by `n`, held at the largest value.
pub open spec fn raised(count: u32, n: u32) -> u32 {
    if count + n <= u32::MAX {
        (count + n) as u32
    } else {
        u32::MAX
    }
}

/// `n` as a count, held at the largest value.
pub open spec fn clamp_u32(n: int) -> u32 {
    if n <= u32::MAX {
        n as u32
    } else {
        u32::MAX
    }
}

fn raise(count: u32, n: u32) -> (r: u32)
    ensures
        r == raised(count, n),
{
    if count <= u32::MAX - n {
        count + n
    } else {
        u32::MAX
    }
}

/// Counts of what became of the incoming records of one sync.
#[derive(Debug, Clone, Copy, PartialEq, Eq, Structural, Default)]
pub struct EngineIncoming {
    pub applied: u32,
    pub reconciled: u32,
    pub failed: u32,
}

impl EngineIncoming {
    pub fn new() -> (r: EngineIncoming)
        ensures
            r.applied == 0 && r.reconciled == 0 && r.failed == 0,
    {
        EngineIncoming { applied: 0, reconciled: 0, failed: 0 }
    }

    /// Counts `n` records applied without conflict.
    pub fn applied(&mut self, n: u32)
        ensures
            *final(self) == (EngineIncoming { applied: raised(old(self).applied, n), ..*old(self) }),
    {
        self.applied = raise(self.applied, n);
    }

    /// Counts `n` records merged with local changes.
    pub fn reconciled(&mut self, n: u32)
        ensures
            *final(self) == (EngineIncoming {
                reconciled: raised(old(self).reconciled, n),
                ..*old(self)
            }),
    {
        self.reconciled = raise(self.reconciled, n);
    }

    /// Counts `n` records that could not be read.
    pub fn failed(&mut self, n: u32)
        ensures
            *final(self) == (EngineIncoming { failed: raised(old(self).failed, n), ..*old(self) }),
    {
        self.failed = raise(self.failed, n);
    }

    pub fn get_applied(&self) -> (r: u32)
        ensures
            r == self.applied,
    {
        self.applied
    }

    pub fn get_reconciled(&self) -> (r: u32)
        ensures
            r == self.reconciled,
    {
        self.reconciled
    }

    pub fn get_failed(&self) -> (r: u32)
        ensures
            r == self.failed,
    {
        self.failed
    }
}

} // verus!
