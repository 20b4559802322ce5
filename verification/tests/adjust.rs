use runrs::{percentage_of, LifeAdjustments};

#[test]
fn percentage_of_fixed_point_units() {
    // 1%, 100% and 200% of 100 seconds, in hundred-thousandths of a second.
    assert_eq!(percentage_of(100, 1000), 100_000);
    assert_eq!(percentage_of(100, 100_000), 10_000_000);
    assert_eq!(percentage_of(100, 200_000), 20_000_000);
    assert_eq!(percentage_of(100, -1000), -100_000);
}

#[test]
fn default_profile_is_deterministic_and_non_zero() {
    // At the defaults the unmarried bonus (+0.90%), the no-plan rule
    // (-0.15%), the rookie-years bracket (-1.02%), the low-training
    // bracket (-2.03%) and the no-posting bracket (-1.00%) fire:
    // -3.30% in all, so 10000 seconds grow by 330.
    let p = LifeAdjustments::new();
    assert_eq!(p.calculate(10000), 10330);
    assert_eq!(LifeAdjustments::default().calculate(10000), 10330);
}

#[test]
fn married_flips_the_sign() {
    let mut p = LifeAdjustments::new();
    p.is_married = true;
    assert_eq!(p.calculate(10000), 10510);
}

#[test]
fn age_bracket_boundaries() {
    let mut p = LifeAdjustments::new();
    p.age = 30;
    let at_30 = p.calculate(1_000_000);
    p.age = 31;
    let at_31 = p.calculate(1_000_000);
    p.age = 111;
    let at_111 = p.calculate(1_000_000);
    // 30 and 31 land in different brackets (+0.95% vs +0.25%); 111 is
    // past every bracket and adds nothing.
    assert_eq!(at_30, 1_023_500);
    assert_eq!(at_31, 1_030_500);
    assert_eq!(at_111, 1_033_000);
    assert_ne!(at_30, at_31);
}

#[test]
fn workout_posting_brackets() {
    let mut p = LifeAdjustments::new();
    p.percentage_of_workouts_posted = 1;
    assert_eq!(p.calculate(10000), 10180);
    p.percentage_of_workouts_posted = 21;
    assert_eq!(p.calculate(10000), 10150);
    p.percentage_of_workouts_posted = 51;
    assert_eq!(p.calculate(10000), 10140);
    p.percentage_of_workouts_posted = 76;
    assert_eq!(p.calculate(10000), 10129);
}

#[test]
fn miles_travelled_free_below_one_thousand() {
    let mut p = LifeAdjustments::new();
    p.miles_travelled_to_race = 1000;
    assert_eq!(p.calculate(10000), 10330);
    p.miles_travelled_to_race = 1500;
    assert_eq!(p.calculate(10000), 10480);
}

#[test]
fn dead_fields_change_nothing() {
    let mut p = LifeAdjustments::new();
    p.religious = true;
    p.temperature_in_farenheit = 95;
    assert_eq!(p.calculate(10000), 10330);
}

#[test]
fn zero_base_stays_zero() {
    assert_eq!(LifeAdjustments::new().calculate(0), 0);
}

#[test]
fn extreme_penalties_clamp_to_the_integer_range() {
    let mut p = LifeAdjustments::new();
    p.minor_children = u32::MAX;
    assert_eq!(p.calculate(u32::MAX), u32::MAX);
}

#[test]
fn formatted_adjusted_time() {
    let p = LifeAdjustments::new();
    // 10330 seconds is 2 hours, 52 minutes, 10 seconds.
    assert_eq!(p.life_adjusted_time(10000), "02:52:10".to_owned());
}

#[test]
fn adjusted_time_from_text() {
    let p = LifeAdjustments::new();
    // "2:46:40" is 10000 seconds.
    assert_eq!(p.life_adjusted_time_from_string("2:46:40"), Ok("02:52:10".to_owned()));
}

#[test]
fn adjusted_time_from_malformed_text() {
    let p = LifeAdjustments::new();
    assert_eq!(p.life_adjusted_time_from_string("2:46"), Err("Invalid format".to_string()));
}
