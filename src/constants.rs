use vstd::prelude::*;

verus! {

/// Upper bound of a risk score.
pub const MAX_RISK_SCORE: u8 = 100;

/// Scores strictly below this value are judged safe.
pub const SAFE_THRESHOLD: u8 = 50;

/// Width in bytes of one instruction slot.
pub const INSN_SIZE: usize = 8;

} // verus!
