//! The life-adjustment rules: a record of personal and environmental
//! attributes, one rule per attribute mapping it to a signed percentage
//! of the base finish time, and the aggregator that applies them all.
//!
//! Percentage rates are in fixed point with three decimal places (a rate
//! of 1000 is 1%), and each rule's offset is the exact product
//! `base * rate`, measured in hundred-thousandths of a second.  The
//! aggregator subtracts the summed offsets from the base time and
//! truncates to whole seconds, clamping to the `u32` range instead of
//! wrapping when the summed rates pass 100% of the base in either
//! direction.

use vstd::prelude::*;

verus! {

use crate::percentage_of;
use crate::codec::{hms_text, time_ok, time_val, seconds_to_time, time_to_seconds};

/// The attributes the adjustment rules read.  Counts and measures are
/// whole units; `religious` and `temperature_in_farenheit` are read by
/// no rule and never influence a result.
#[derive(Clone, Copy)]
pub struct LifeAdjustments {
    pub is_married: bool,
    pub minor_children: u32,
    pub hours_worked_per_week: u32,
    pub age: u32,
    pub pounds_overweight: u32,
    pub following_plan: bool,
    pub alcohol_units_prior: u32,
    pub had_pacer: bool,
    pub east_african: bool,
    pub years_as_runner: u32,
    pub number_of_medications: u32,
    pub destination_race: bool,
    pub religious: bool,
    pub very_attractive: bool,
    pub weeks_of_training: u32,
    pub has_coach: bool,
    pub percentage_of_workouts_posted: u32,
    pub miles_travelled_to_race: u32,
    pub temperature_in_farenheit: i32,
}

pub open spec fn default_profile() -> LifeAdjustments {
    LifeAdjustments {
        is_married: false,
        minor_children: 0,
        hours_worked_per_week: 0,
        age: 0,
        pounds_overweight: 0,
        following_plan: false,
        alcohol_units_prior: 0,
        had_pacer: false,
        east_african: false,
        years_as_runner: 0,
        number_of_medications: 0,
        destination_race: false,
        religious: false,
        very_attractive: false,
        weeks_of_training: 0,
        has_coach: false,
        percentage_of_workouts_posted: 0,
        miles_travelled_to_race: 0,
        temperature_in_farenheit: 0,
    }
}

/// Unmarried runs 0.90% faster; married flips the sign.
pub open spec fn married_rate(is_married: bool) -> int {
    if is_married {
        -900
    } else {
        900
    }
}

/// 0.77% slower per minor child.
pub open spec fn minor_children_rate(children: int) -> int {
    -(children * 770)
}

/// 0.02% slower per weekly hour worked.
pub open spec fn hours_worked_rate(hours: int) -> int {
    -(hours * 20)
}

/// Age brackets, in whole years.
pub open spec fn age_rate(age: int) -> int {
    if 1 <= age && age <= 30 {
        950
    } else if 31 <= age && age <= 41 {
        250
    } else if 42 <= age && age <= 50 {
        -750
    } else if 51 <= age && age <= 60 {
        -1250
    } else if 61 <= age && age <= 70 {
        -2250
    } else if 71 <= age && age <= 110 {
        -4250
    } else {
        0
    }
}

/// 0.02% slower per pound overweight.
pub open spec fn pounds_overweight_rate(pounds: int) -> int {
    -(pounds * 20)
}

/// Not following a plan costs 0.15%.
pub open spec fn following_plan_rate(following: bool) -> int {
    if following {
        0
    } else {
        -150
    }
}

/// 0.07% slower per unit of alcohol the night before.
pub open spec fn alcohol_rate(units: int) -> int {
    -(units * 70)
}

pub open spec fn had_pacer_rate(had_pacer: bool) -> int {
    if had_pacer {
        250
    } else {
        0
    }
}

pub open spec fn east_african_rate(east_african: bool) -> int {
    if east_african {
        960
    } else {
        0
    }
}

/// Brackets over whole years of running experience.
pub open spec fn years_as_runner_rate(years: int) -> int {
    if 0 <= years && years <= 3 {
        -1020
    } else if 4 <= years && years <= 9 {
        -200
    } else {
        0
    }
}

/// 0.1% slower per medication.
pub open spec fn medications_rate(medications: int) -> int {
    -(medications * 100)
}

pub open spec fn destination_rate(destination: bool) -> int {
    if destination {
        -500
    } else {
        0
    }
}

pub open spec fn very_attractive_rate(attractive: bool) -> int {
    if attractive {
        1050
    } else {
        0
    }
}

/// Brackets over whole weeks of training.
pub open spec fn weeks_of_training_rate(weeks: int) -> int {
    if 0 <= weeks && weeks <= 11 {
        -2030
    } else if 12 <= weeks && weeks <= 18 {
        -1020
    } else {
        0
    }
}

pub open spec fn has_coach_rate(has_coach: bool) -> int {
    if has_coach {
        2000
    } else {
        0
    }
}

/// Brackets over the share of workouts posted to social media.
pub open spec fn workouts_posted_rate(posted: int) -> int {
    if posted == 0 {
        -1000
    } else if 1 <= posted && posted <= 20 {
        500
    } else if 21 <= posted && posted <= 50 {
        800
    } else if 51 <= posted && posted <= 75 {
        900
    } else {
        1010
    }
}

/// Nothing for the first thousand miles travelled, then 1% per
/// thousand miles, pro rata.
pub open spec fn miles_travelled_rate(miles: int) -> int {
    if 0 <= miles && miles <= 1000 {
        0
    } else {
        -miles
    }
}

/// The summed offset of all rules, in hundred-thousandths of a second.
pub open spec fn total_offset(p: LifeAdjustments, base: int) -> int {
    base * married_rate(p.is_married) + base * minor_children_rate(p.minor_children as int) + base
        * hours_worked_rate(p.hours_worked_per_week as int) + base * age_rate(p.age as int) + base
        * pounds_overweight_rate(p.pounds_overweight as int) + base * following_plan_rate(
        p.following_plan,
    ) + base * alcohol_rate(p.alcohol_units_prior as int) + base * had_pacer_rate(p.had_pacer)
        + base * east_african_rate(p.east_african) + base * years_as_runner_rate(
        p.years_as_runner as int,
    ) + base * medications_rate(p.number_of_medications as int) + base * destination_rate(
        p.destination_race,
    ) + base * very_attractive_rate(p.very_attractive) + base * weeks_of_training_rate(
        p.weeks_of_training as int,
    ) + base * has_coach_rate(p.has_coach) + base * workouts_posted_rate(
        p.percentage_of_workouts_posted as int,
    ) + base * miles_travelled_rate(p.miles_travelled_to_race as int)
}

/// The adjusted time: the base minus the summed offsets, truncated to
/// whole seconds and clamped to the `u32` range.
pub open spec fn adjusted_seconds(p: LifeAdjustments, base: int) -> int {
    let scaled = base * 100000 - total_offset(p, base);
    if scaled <= 0 {
        0
    } else if scaled / 100000 > u32::MAX {
        u32::MAX as int
    } else {
        scaled / 100000
    }
}

/// The reserved attributes are inert: two profiles that differ at most
/// in `religious` and `temperature_in_farenheit` adjust every base time
/// alike.
pub proof fn lemma_reserved_fields_are_inert(p: LifeAdjustments, q: LifeAdjustments, base: int)
    requires
        q == (LifeAdjustments {
            religious: q.religious,
            temperature_in_farenheit: q.temperature_in_farenheit,
            ..p
        }),
    ensures
        adjusted_seconds(p, base) == adjusted_seconds(q, base),
{
}

proof fn lemma_mul_bounds(a: int, b: int, amax: int, bmin: int, bmax: int)
    requires
        0 <= a <= amax,
        bmin <= b <= bmax,
        bmin <= 0,
        0 <= bmax,
    ensures
        amax * bmin <= a * b <= amax * bmax,
{
    assert(amax * bmin <= a * b <= amax * bmax) by (nonlinear_arith)
        requires
            0 <= a <= amax,
            bmin <= b <= bmax,
            bmin <= 0,
            0 <= bmax,
    ;
}

impl LifeAdjustments {
    /// A profile with every attribute at its zero or false default.
    pub fn new() -> (r: LifeAdjustments)
        ensures
            r == default_profile(),
    {
        LifeAdjustments {
            is_married: false,
            minor_children: 0,
            hours_worked_per_week: 0,
            age: 0,
            pounds_overweight: 0,
            following_plan: false,
            alcohol_units_prior: 0,
            had_pacer: false,
            east_african: false,
            years_as_runner: 0,
            number_of_medications: 0,
            destination_race: false,
            religious: false,
            very_attractive: false,
            weeks_of_training: 0,
            has_coach: false,
            percentage_of_workouts_posted: 0,
            miles_travelled_to_race: 0,
            temperature_in_farenheit: 0,
        }
    }

    pub fn is_married_adjustment(&self, base_time: u32) -> (r: i128)
        ensures
            r == base_time as int * married_rate(self.is_married),
    {
        let adjustment = percentage_of(base_time, 900);
        if self.is_married {
            -adjustment
        } else {
            adjustment
        }
    }

    pub fn minor_children_adjustment(&self, base_time: u32) -> (r: i128)
        ensures
            r == base_time as int * minor_children_rate(self.minor_children as int),
    {
        percentage_of(base_time, -(self.minor_children as i64 * 770))
    }

    pub fn hours_worked_per_week_adjustment(&self, base_time: u32) -> (r: i128)
        ensures
            r == base_time as int * hours_worked_rate(self.hours_worked_per_week as int),
    {
        percentage_of(base_time, -(self.hours_worked_per_week as i64 * 20))
    }

    pub fn age_adjustment(&self, base_time: u32) -> (r: i128)
        ensures
            r == base_time as int * age_rate(self.age as int),
    {
        let rate: i64 = if 1 <= self.age && self.age <= 30 {
            950
        } else if 31 <= self.age && self.age <= 41 {
            250
        } else if 42 <= self.age && self.age <= 50 {
            -750
        } else if 51 <= self.age && self.age <= 60 {
            -1250
        } else if 61 <= self.age && self.age <= 70 {
            -2250
        } else if 71 <= self.age && self.age <= 110 {
            -4250
        } else {
            0
        };
        percentage_of(base_time, rate)
    }

    pub fn pounds_overweight_adjustment(&self, base_time: u32) -> (r: i128)
        ensures
            r == base_time as int * pounds_overweight_rate(self.pounds_overweight as int),
    {
        percentage_of(base_time, -(self.pounds_overweight as i64 * 20))
    }

    pub fn following_plan_adjustment(&self, base_time: u32) -> (r: i128)
        ensures
            r == base_time as int * following_plan_rate(self.following_plan),
    {
        if self.following_plan {
            0
        } else {
            percentage_of(base_time, -150)
        }
    }

    pub fn alcohol_units_prior_adjustment(&self, base_time: u32) -> (r: i128)
        ensures
            r == base_time as int * alcohol_rate(self.alcohol_units_prior as int),
    {
        percentage_of(base_time, -(self.alcohol_units_prior as i64 * 70))
    }

    pub fn had_pacer_adjustment(&self, base_time: u32) -> (r: i128)
        ensures
            r == base_time as int * had_pacer_rate(self.had_pacer),
    {
        if self.had_pacer {
            percentage_of(base_time, 250)
        } else {
            0
        }
    }

    pub fn east_african_adjustment(&self, base_time: u32) -> (r: i128)
        ensures
            r == base_time as int * east_african_rate(self.east_african),
    {
        if self.east_african {
            percentage_of(base_time, 960)
        } else {
            0
        }
    }

    pub fn years_as_runner_adjustment(&self, base_time: u32) -> (r: i128)
        ensures
            r == base_time as int * years_as_runner_rate(self.years_as_runner as int),
    {
        let rate: i64 = if self.years_as_runner <= 3 {
            -1020
        } else if 4 <= self.years_as_runner && self.years_as_runner <= 9 {
            -200
        } else {
            0
        };
        percentage_of(base_time, rate)
    }

    pub fn number_of_medications_adjustment(&self, base_time: u32) -> (r: i128)
        ensures
            r == base_time as int * medications_rate(self.number_of_medications as int),
    {
        percentage_of(base_time, -(self.number_of_medications as i64 * 100))
    }

    pub fn destination_race_adjustment(&self, base_time: u32) -> (r: i128)
        ensures
            r == base_time as int * destination_rate(self.destination_race),
    {
        if self.destination_race {
            percentage_of(base_time, -500)
        } else {
            0
        }
    }

    pub fn very_attractive_adjustment(&self, base_time: u32) -> (r: i128)
        ensures
            r == base_time as int * very_attractive_rate(self.very_attractive),
    {
        if self.very_attractive {
            percentage_of(base_time, 1050)
        } else {
            0
        }
    }

    pub fn weeks_of_training_adjustment(&self, base_time: u32) -> (r: i128)
        ensures
            r == base_time as int * weeks_of_training_rate(self.weeks_of_training as int),
    {
        let rate: i64 = if self.weeks_of_training <= 11 {
            -2030
        } else if 12 <= self.weeks_of_training && self.weeks_of_training <= 18 {
            -1020
        } else {
            0
        };
        percentage_of(base_time, rate)
    }

    pub fn has_coach_adjustment(&self, base_time: u32) -> (r: i128)
        ensures
            r == base_time as int * has_coach_rate(self.has_coach),
    {
        if self.has_coach {
            percentage_of(base_time, 2000)
        } else {
            0
        }
    }

    pub fn percentage_of_workouts_posted_adjustment(&self, base_time: u32) -> (r: i128)
        ensures
            r == base_time as int * workouts_posted_rate(self.percentage_of_workouts_posted as int),
    {
        let posted = self.percentage_of_workouts_posted;
        let rate: i64 = if posted == 0 {
            -1000
        } else if posted <= 20 {
            500
        } else if posted <= 50 {
            800
        } else if posted <= 75 {
            900
        } else {
            1010
        };
        percentage_of(base_time, rate)
    }

    pub fn miles_travelled_to_race_adjustment(&self, base_time: u32) -> (r: i128)
        ensures
            r == base_time as int * miles_travelled_rate(self.miles_travelled_to_race as int),
    {
        if self.miles_travelled_to_race <= 1000 {
            0
        } else {
            percentage_of(base_time, -(self.miles_travelled_to_race as i64))
        }
    }

    /// The life-adjusted time in seconds: every rule's offset is taken
    /// against the same base, summed, and subtracted from the base.
    #[verifier::rlimit(100)]
    pub fn calculate(&self, base_time_in_seconds: u32) -> (r: u32)
        ensures
            r as int == adjusted_seconds(*self, base_time_in_seconds as int),
    {
        let base = base_time_in_seconds;
        let a01 = self.is_married_adjustment(base);
        let a02 = self.minor_children_adjustment(base);
        let a03 = self.hours_worked_per_week_adjustment(base);
        let a04 = self.age_adjustment(base);
        let a05 = self.pounds_overweight_adjustment(base);
        let a06 = self.following_plan_adjustment(base);
        let a07 = self.alcohol_units_prior_adjustment(base);
        let a08 = self.had_pacer_adjustment(base);
        let a09 = self.east_african_adjustment(base);
        let a10 = self.years_as_runner_adjustment(base);
        let a11 = self.number_of_medications_adjustment(base);
        let a12 = self.destination_race_adjustment(base);
        let a13 = self.very_attractive_adjustment(base);
        let a14 = self.weeks_of_training_adjustment(base);
        let a15 = self.has_coach_adjustment(base);
        let a16 = self.percentage_of_workouts_posted_adjustment(base);
        let a17 = self.miles_travelled_to_race_adjustment(base);
        proof {
            let b = base as int;
            let bound: int = 0x4_0000_0000_0000;
            lemma_mul_bounds(b, married_rate(self.is_married), 0xffff_ffff, -bound, bound);
            lemma_mul_bounds(
                b,
                minor_children_rate(self.minor_children as int),
                0xffff_ffff,
                -bound,
                bound,
            );
            lemma_mul_bounds(
                b,
                hours_worked_rate(self.hours_worked_per_week as int),
                0xffff_ffff,
                -bound,
                bound,
            );
            lemma_mul_bounds(b, age_rate(self.age as int), 0xffff_ffff, -bound, bound);
            lemma_mul_bounds(
                b,
                pounds_overweight_rate(self.pounds_overweight as int),
                0xffff_ffff,
                -bound,
                bound,
            );
            lemma_mul_bounds(b, following_plan_rate(self.following_plan), 0xffff_ffff, -bound, bound);
            lemma_mul_bounds(
                b,
                alcohol_rate(self.alcohol_units_prior as int),
                0xffff_ffff,
                -bound,
                bound,
            );
            lemma_mul_bounds(b, had_pacer_rate(self.had_pacer), 0xffff_ffff, -bound, bound);
            lemma_mul_bounds(b, east_african_rate(self.east_african), 0xffff_ffff, -bound, bound);
            lemma_mul_bounds(
                b,
                years_as_runner_rate(self.years_as_runner as int),
                0xffff_ffff,
                -bound,
                bound,
            );
            lemma_mul_bounds(
                b,
                medications_rate(self.number_of_medications as int),
                0xffff_ffff,
                -bound,
                bound,
            );
            lemma_mul_bounds(b, destination_rate(self.destination_race), 0xffff_ffff, -bound, bound);
            lemma_mul_bounds(b, very_attractive_rate(self.very_attractive), 0xffff_ffff, -bound, bound);
            lemma_mul_bounds(
                b,
                weeks_of_training_rate(self.weeks_of_training as int),
                0xffff_ffff,
                -bound,
                bound,
            );
            lemma_mul_bounds(b, has_coach_rate(self.has_coach), 0xffff_ffff, -bound, bound);
            lemma_mul_bounds(
                b,
                workouts_posted_rate(self.percentage_of_workouts_posted as int),
                0xffff_ffff,
                -bound,
                bound,
            );
            lemma_mul_bounds(
                b,
                miles_travelled_rate(self.miles_travelled_to_race as int),
                0xffff_ffff,
                -bound,
                bound,
            );
        }
        let total: i128 = a01 + a02 + a03 + a04 + a05 + a06 + a07 + a08 + a09 + a10 + a11 + a12
            + a13 + a14 + a15 + a16 + a17;
        let scaled: i128 = base as i128 * 100000 - total;
        if scaled <= 0 {
            0
        } else {
            let q = scaled / 100000;
            if q > u32::MAX as i128 {
                u32::MAX
            } else {
                q as u32
            }
        }
    }

    /// The life-adjusted time rendered as `HH:MM:SS`.
    pub fn life_adjusted_time(&self, base_time: u32) -> (r: String)
        ensures
            r@ == hms_text(adjusted_seconds(*self, base_time as int) as nat),
    {
        seconds_to_time(self.calculate(base_time) as u64)
    }

    /// The life-adjusted time of a base time given as `HH:MM:SS` text,
    /// rendered back as `HH:MM:SS`.  A parse failure is surfaced as the
    /// parser's error; a parsed base of 2^32 seconds or more is reduced
    /// modulo 2^32 to the `u32` the calculation takes.
    pub fn life_adjusted_time_from_string(&self, base_time_string: &str) -> (r: Result<
        String,
        String,
    >)
        ensures
            time_ok(base_time_string@) ==> r is Ok && r->Ok_0@ == hms_text(
                adjusted_seconds(*self, time_val(base_time_string@) as int % 0x1_0000_0000) as nat,
            ),
            !time_ok(base_time_string@) ==> r is Err && r->Err_0@ == "Invalid format"@,
    {
        let base64 = match time_to_seconds(base_time_string) {
            Ok(v) => v,
            Err(e) => {
                return Err(e);
            },
        };
        let base = (base64 % 0x1_0000_0000u64) as u32;
        Ok(seconds_to_time(self.calculate(base) as u64))
    }
}

impl Default for LifeAdjustments {
    /// The same profile as `new`: every attribute zero or false.
    fn default() -> (r: Self)
        ensures
            r == default_profile(),
    {
        LifeAdjustments::new()
    }
}

} // verus!
