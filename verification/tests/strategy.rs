use runrs::race_strategy;

#[test]
fn strategy_is_one_of_the_five_lines() {
    let lines = [
        "Go out at your target pace and hold it the whole race.",
        "Go out too fast and hold on as long as you can.",
        "Just have fun out there.",
        "Go out hard and hit the wall.",
        "Your entire self-worth is based on getting a PR...but have fun out there.",
    ];
    for _ in 0..50 {
        let s = race_strategy();
        assert!(lines.contains(&s));
    }
}
