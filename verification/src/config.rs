//! The protocol parameters.

use vstd::prelude::*;

verus! {

/// ColliderVM parameters.
#[derive(Debug, Clone)]
pub struct ColliderVmConfig {
    /// Number of participants.
    pub n: usize,
    /// Number of flows.
    pub m: usize,
    /// Base-2 logarithm of the size of the flow-identifier space.
    pub l: usize,
    /// Width of the hash prefix in bits.
    pub b: usize,
    /// Number of flows that are required.
    pub k: usize,
}

impl ColliderVmConfig {
    /// The parameters that the codec and the oracle are meant for: a prefix
    /// of whole bytes, at most 32 bits wide, and a flow-identifier space no
    /// wider than the prefix.
    pub open spec fn valid(&self) -> bool {
        &&& self.l <= self.b
        &&& self.b <= 32
        &&& self.b % 8 == 0
    }

    /// Checks the parameters; nothing else does.
    pub fn is_valid(&self) -> (ok: bool)
        ensures
            ok == self.valid(),
    {
        self.l <= self.b && self.b <= 32 && self.b % 8 == 0
    }
}

} // verus!
