//! Fixed-point scale shared by confidences and personality weights.
//!
//! A stored value `v` stands for the real number `v / UNIT`.

use vstd::prelude::*;

verus! {

/// The fixed-point representation of 1.0.
pub const UNIT: i64 = 1_000_000;

/// Amount added to a pattern's confidence each time it is observed again.
pub const REINFORCEMENT_STEP: i64 = 100_000;

/// Decay never lowers a confidence below this value.
pub const DECAY_FLOOR: i64 = 100_000;

/// Patterns whose confidence is below this value are candidates for pruning.
pub const PRUNE_CONFIDENCE: i64 = 200_000;

/// Patterns observed at least this many times are never pruned.
pub const PRUNE_OBSERVATIONS: i64 = 3;

/// Default weight of the instinct voice.
pub const DEFAULT_INSTINCT_WEIGHT: i64 = 200_000;

/// Default weight of the logic voice.
pub const DEFAULT_LOGIC_WEIGHT: i64 = 500_000;

/// Default weight of the psyche voice.
pub const DEFAULT_PSYCHE_WEIGHT: i64 = 300_000;

/// One more than `count`, held at the largest representable value.
pub open spec fn bumped(count: i64) -> i64 {
    if count < i64::MAX {
        (count + 1) as i64
    } else {
        count
    }
}

/// Advances a counter by one; a counter at the top of its range stays there.
pub fn bump(count: i64) -> (next: i64)
    ensures
        next == bumped(count),
{
    if count < i64::MAX {
        count + 1
    } else {
        count
    }
}

} // verus!
