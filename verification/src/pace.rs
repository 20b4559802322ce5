//! Pace utilities over `HH:MM:SS` text: the per-unit pace a finish time
//! demands, and the chart of split times at each whole unit of distance.
//!
//! Distances are in thousandths of a unit, so that a marathon of 26.2
//! miles is passed as 26200 and the arithmetic stays exact.

use vstd::prelude::*;

verus! {

use crate::codec::{hms_text, time_ok, time_val, seconds_to_time, time_to_seconds};
use vstd::arithmetic::div_mod::{lemma_div_non_zero, lemma_fundamental_div_mod_converse};

/// Seconds per whole unit of distance: the finish time divided by the
/// distance, floored, clamped to `u64::MAX`.
pub open spec fn pace_seconds(total: nat, dist: nat) -> nat
    recommends
        dist >= 1,
{
    let p = total * 1000 / dist;
    if p > u64::MAX as nat {
        u64::MAX as nat
    } else {
        p
    }
}

/// The gap in seconds between consecutive splits of the chart.
pub open spec fn chart_step(total: nat, dist: nat) -> nat
    recommends
        dist >= 1,
{
    total * 1000 / dist
}

/// How many splits fall strictly before the finish time.
pub open spec fn chart_count(total: nat, dist: nat) -> nat
    recommends
        dist >= 1,
        total == 0 || chart_step(total, dist) >= 1,
{
    if total == 0 {
        0
    } else {
        (total - 1) as nat / chart_step(total, dist)
    }
}

/// What a pace chart for `total` seconds over `dist` thousandths of a
/// unit holds: one `HH:MM:SS` split per whole unit, at multiples of the
/// step, stopping short of the finish time itself.
pub open spec fn chart_matches(total: nat, dist: nat, out: Seq<String>) -> bool {
    &&& out.len() == chart_count(total, dist)
    &&& forall|k: int|
        0 <= k < out.len() ==> out[k]@ == hms_text(((k + 1) * chart_step(total, dist)) as nat)
}

/// The pace per unit of distance a finish time demands, as `HH:MM:SS`.
///
/// `distance_thousandths` must be positive; a malformed finish time is
/// surfaced as the parser's error.
pub fn target_pace(finish_time: &str, distance_thousandths: u64) -> (r: Result<String, String>)
    requires
        distance_thousandths >= 1,
    ensures
        time_ok(finish_time@) ==> r is Ok && r->Ok_0@ == hms_text(
            pace_seconds(time_val(finish_time@), distance_thousandths as nat),
        ),
        !time_ok(finish_time@) ==> r is Err && r->Err_0@ == "Invalid format"@,
{
    let total = match time_to_seconds(finish_time) {
        Ok(v) => v,
        Err(e) => {
            return Err(e);
        },
    };
    let scaled: u128 = total as u128 * 1000;
    let p: u128 = scaled / (distance_thousandths as u128);
    let pace: u64 = if p > u64::MAX as u128 {
        u64::MAX
    } else {
        p as u64
    };
    Ok(seconds_to_time(pace))
}

/// The chart of split times: one split per whole unit of distance, each
/// a step of `total / distance` seconds after the last, stopping short
/// of the finish time.
///
/// `distance_thousandths` must be positive and, for a non-zero finish
/// time, at most a thousand times the finish seconds, so that the step
/// between splits is at least one second.  A malformed finish time is
/// surfaced as the parser's error.
pub fn pace_chart(finish_time: &str, distance_thousandths: u64) -> (r: Result<Vec<String>, String>)
    requires
        distance_thousandths >= 1,
        time_ok(finish_time@) ==> time_val(finish_time@) == 0 || distance_thousandths as nat <= 1000
            * time_val(finish_time@),
    ensures
        time_ok(finish_time@) ==> r is Ok && chart_matches(
            time_val(finish_time@),
            distance_thousandths as nat,
            r->Ok_0@,
        ),
        !time_ok(finish_time@) ==> r is Err && r->Err_0@ == "Invalid format"@,
{
    let total = match time_to_seconds(finish_time) {
        Ok(v) => v,
        Err(e) => {
            return Err(e);
        },
    };
    let mut paces: Vec<String> = Vec::new();
    if total == 0 {
        return Ok(paces);
    }
    let scaled: u128 = total as u128 * 1000;
    let dist: u128 = distance_thousandths as u128;
    let step: u128 = scaled / dist;
    proof {
        lemma_div_non_zero(scaled as int, dist as int);
        assert(step >= 1);
        assert(paces@.len() == 0);
        assert(step as int * (paces@.len() as int + 1) == step as int) by (nonlinear_arith)
            requires
                paces@.len() == 0,
        ;
    }
    let mut i: u128 = step;
    while i < total as u128
        invariant
            1 <= step <= scaled,
            total >= 1,
            step as int == chart_step(total as nat, distance_thousandths as nat),
            scaled as int == total as int * 1000,
            i as int == step as int * (paces@.len() as int + 1),
            paces@.len() == 0 || step as int * (paces@.len() as int) < total as int,
            forall|k: int|
                0 <= k < paces@.len() ==> paces@[k]@ == hms_text(
                    ((k + 1) * chart_step(total as nat, distance_thousandths as nat)) as nat,
                ),
        decreases total as int + step as int - i as int,
    {
        let ghost oldlen = paces@.len() as int;
        paces.push(seconds_to_time(i as u64));
        proof {
            assert(paces@.len() == oldlen + 1);
            assert(paces@[oldlen]@ == hms_text(i as nat));
            assert(i as int == step as int * (oldlen + 1));
            assert((oldlen + 1) * step as int == step as int * (oldlen + 1)) by (nonlinear_arith);
            assert(i as int + step as int == step as int * (oldlen + 2)) by (nonlinear_arith)
                requires
                    i as int == step as int * (oldlen + 1),
            ;
        }
        i = i + step;
    }
    proof {
        let len = paces@.len() as int;
        assert(len == 0 || step as int * len < total as int);
        assert(total as int <= step as int * (len + 1));
        assert(step as int * (len + 1) == step as int * len + step as int) by (nonlinear_arith);
        assert(len * step as int == step as int * len) by (nonlinear_arith);
        lemma_fundamental_div_mod_converse(
            total as int - 1,
            step as int,
            len,
            total as int - 1 - step as int * len,
        );
    }
    Ok(paces)
}

} // verus!
