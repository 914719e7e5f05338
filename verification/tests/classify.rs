use kiriban::classify::{
    judge_kiriban, judge_kiriban_reasons, KiribanJudgement, KiribanReason, NonKiribanCause,
};

#[test]
fn values_below_one_hundred_are_too_small() {
    for v in [i32::MIN, -1000, -1, 0, 1, 9, 50, 99] {
        assert_eq!(
            judge_kiriban(v),
            KiribanJudgement::NonKiriban(v, NonKiribanCause::TooSmall)
        );
    }
}

#[test]
fn one_hundred_is_a_series_of_zero() {
    assert_eq!(
        judge_kiriban(100),
        KiribanJudgement::Kiriban(100, vec![KiribanReason::SeriesOfZero])
    );
}

#[test]
fn one_two_three_is_consecutive() {
    assert_eq!(
        judge_kiriban(123),
        KiribanJudgement::Kiriban(123, vec![KiribanReason::Consecutive])
    );
}

#[test]
fn triple_one_is_a_repdigit() {
    assert_eq!(
        judge_kiriban(111),
        KiribanJudgement::Kiriban(111, vec![KiribanReason::Repdigit])
    );
}

#[test]
fn five_six_seven_eight_nine_is_consecutive() {
    assert_eq!(
        judge_kiriban(56789),
        KiribanJudgement::Kiriban(56789, vec![KiribanReason::Consecutive])
    );
}

#[test]
fn two_hundred_thousand_is_a_series_of_zero() {
    assert_eq!(
        judge_kiriban(200000),
        KiribanJudgement::Kiriban(200000, vec![KiribanReason::SeriesOfZero])
    );
}

#[test]
fn one_hundred_one_matches_no_pattern() {
    assert_eq!(
        judge_kiriban(101),
        KiribanJudgement::NonKiriban(101, NonKiribanCause::NoPatternMatched)
    );
}

#[test]
fn seven_fives_are_a_repdigit() {
    assert_eq!(
        judge_kiriban(5555555),
        KiribanJudgement::Kiriban(5555555, vec![KiribanReason::Repdigit])
    );
}

#[test]
fn descending_runs_are_consecutive() {
    assert_eq!(
        judge_kiriban(987),
        KiribanJudgement::Kiriban(987, vec![KiribanReason::Consecutive])
    );
    assert_eq!(
        judge_kiriban(54321),
        KiribanJudgement::Kiriban(54321, vec![KiribanReason::Consecutive])
    );
    assert_eq!(
        judge_kiriban(987654321),
        KiribanJudgement::Kiriban(987654321, vec![KiribanReason::Consecutive])
    );
}

#[test]
fn further_values_match_no_pattern() {
    for v in [110, 122, 9090, 321_000, i32::MAX] {
        assert_eq!(
            judge_kiriban(v),
            KiribanJudgement::NonKiriban(v, NonKiribanCause::NoPatternMatched)
        );
    }
}

#[test]
fn longer_series_of_zero_and_repdigits() {
    assert_eq!(
        judge_kiriban(1000),
        KiribanJudgement::Kiriban(1000, vec![KiribanReason::SeriesOfZero])
    );
    assert_eq!(
        judge_kiriban(900000000),
        KiribanJudgement::Kiriban(900000000, vec![KiribanReason::SeriesOfZero])
    );
    assert_eq!(
        judge_kiriban(999999999),
        KiribanJudgement::Kiriban(999999999, vec![KiribanReason::Repdigit])
    );
}

#[test]
fn no_eligible_value_matches_two_patterns() {
    for v in 100..=200_000 {
        let reasons = judge_kiriban_reasons(v);
        assert!(reasons.len() <= 1, "value {} matched {:?}", v, reasons);
    }
}

#[test]
fn reasons_keep_evaluation_order() {
    // No eligible value matches two patterns at once, so the order shows in
    // how each single reason is placed, and in the judgement of each kind.
    assert_eq!(judge_kiriban_reasons(123), vec![KiribanReason::Consecutive]);
    assert_eq!(judge_kiriban_reasons(100), vec![KiribanReason::SeriesOfZero]);
    assert_eq!(judge_kiriban_reasons(111), vec![KiribanReason::Repdigit]);
    assert_eq!(judge_kiriban_reasons(101), vec![]);
}

#[test]
fn classification_is_deterministic() {
    for v in [i32::MIN, -5, 50, 100, 101, 123, 111, 56789, 200000, 5555555, i32::MAX] {
        assert_eq!(judge_kiriban(v), judge_kiriban(v));
    }
}
