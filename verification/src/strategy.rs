//! A race-strategy picker: one of five fixed lines, chosen at random.

use vstd::prelude::*;

verus! {

/// The five strategy lines, in order.
pub open spec fn strategy_texts() -> Seq<Seq<char>> {
    seq![
        "Go out at your target pace and hold it the whole race."@,
        "Go out too fast and hold on as long as you can."@,
        "Just have fun out there."@,
        "Go out hard and hit the wall."@,
        "Your entire self-worth is based on getting a PR...but have fun out there."@,
    ]
}

/// Relies on rand::random_range over `0..n`: a sample drawn from the
/// given range, which must not be empty.
#[verifier::external_body]
fn random_below(n: usize) -> (r: usize)
    requires
        n >= 1,
    ensures
        r < n,
{
    rand::random_range(0..n)
}

fn strategy_text(idx: usize) -> (r: &'static str)
    requires
        idx < 5,
    ensures
        r@ == strategy_texts()[idx as int],
{
    if idx == 0 {
        "Go out at your target pace and hold it the whole race."
    } else if idx == 1 {
        "Go out too fast and hold on as long as you can."
    } else if idx == 2 {
        "Just have fun out there."
    } else if idx == 3 {
        "Go out hard and hit the wall."
    } else {
        "Your entire self-worth is based on getting a PR...but have fun out there."
    }
}

/// One of the five strategy lines; which one is the random source's
/// affair, so only membership is promised.
pub fn race_strategy() -> (r: &'static str)
    ensures
        exists|i: int| 0 <= i < 5 && r@ == strategy_texts()[i],
{
    let idx = random_below(5);
    let s = strategy_text(idx);
    proof {
        assert(0 <= idx as int && (idx as int) < 5 && s@ == strategy_texts()[idx as int]);
    }
    s
}

} // verus!
