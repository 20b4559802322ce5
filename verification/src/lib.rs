//! Race-time arithmetic for distance runners: a fixed-point percentage
//! primitive, a set of personal and environmental adjustment rules that
//! rescale a finish time, and utilities over the `HH:MM:SS` time format.

use vstd::prelude::*;

pub mod adjust;
pub mod codec;
pub mod pace;
pub mod strategy;

pub use adjust::LifeAdjustments;
pub use codec::{seconds_to_time, time_to_seconds};
pub use pace::{pace_chart, target_pace};
pub use strategy::race_strategy;

verus! {

/// Compute a percentage of a base number of seconds, in fixed point.
///
/// Percentages carry three decimal places: a `rate` of 1000 stands for
/// 1%, 950 for 0.95%. The result is the offset measured in
/// hundred-thousandths of a second, so that `of * rate` is exact:
/// `percentage_of(100, 1000)` is one second, returned as 100000.
pub fn percentage_of(of: u32, rate: i64) -> (r: i128)
    ensures
        r == of as int * rate as int,
{
    proof {
        assert(-0x8000_0000_0000_0000i128 * 0x1_0000_0000i128 <= of as int * rate as int
            <= 0x7fff_ffff_ffff_ffffi128 * 0x1_0000_0000i128) by (nonlinear_arith)
            requires
                0 <= of as int <= 0xffff_ffffi128,
                -0x8000_0000_0000_0000i128 <= rate as int <= 0x7fff_ffff_ffff_ffffi128,
        ;
    }
    of as i128 * rate as i128
}

} // verus!
