use runrs::{pace_chart, target_pace};

#[test]
fn marathon_pace_in_miles() {
    // 26.2 miles, given in thousandths of a unit.
    assert_eq!(target_pace("3:00:00", 26200), Ok("00:06:52".to_owned()));
}

#[test]
fn marathon_pace_in_kilometres() {
    assert_eq!(target_pace("3:00:00", 42125), Ok("00:04:16".to_owned()));
}

#[test]
fn pace_of_malformed_time() {
    assert_eq!(target_pace("3:00", 26200), Err("Invalid format".to_string()));
}

#[test]
fn chart_excludes_the_finish_split() {
    // One hour over four units: a split every 900 seconds, the finish
    // itself left out.
    assert_eq!(
        pace_chart("1:00:00", 4000),
        Ok(vec!["00:15:00".to_owned(), "00:30:00".to_owned(), "00:45:00".to_owned()])
    );
}

#[test]
fn chart_with_a_remainder_step() {
    // 10 seconds over three units: a split every 3 seconds.
    assert_eq!(
        pace_chart("0:00:10", 3000),
        Ok(vec!["00:00:03".to_owned(), "00:00:06".to_owned(), "00:00:09".to_owned()])
    );
}

#[test]
fn chart_of_zero_finish_time() {
    assert_eq!(pace_chart("0:00:00", 5000), Ok(vec![]));
}

#[test]
fn chart_of_malformed_time() {
    assert_eq!(pace_chart("oops", 4000), Err("Invalid format".to_string()));
}
