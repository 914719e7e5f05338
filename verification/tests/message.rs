use kiriban::classify::{judge_kiriban, KiribanReason};
use kiriban::message::{
    conv_reason_to_string, join_reason_labels, judgement_is_kiriban, judgement_message,
    value_to_string,
};

#[test]
fn reason_labels() {
    assert_eq!(
        conv_reason_to_string(&KiribanReason::Consecutive).as_str(),
        "consecutive"
    );
    assert_eq!(
        conv_reason_to_string(&KiribanReason::SeriesOfZero).as_str(),
        "series of zero"
    );
    assert_eq!(
        conv_reason_to_string(&KiribanReason::Repdigit).as_str(),
        "repdigit"
    );
}

#[test]
fn decimal_rendering_of_values() {
    assert_eq!(value_to_string(0).as_str(), "0");
    assert_eq!(value_to_string(7).as_str(), "7");
    assert_eq!(value_to_string(100).as_str(), "100");
    assert_eq!(value_to_string(-1).as_str(), "-1");
    assert_eq!(value_to_string(i32::MAX).as_str(), "2147483647");
    assert_eq!(value_to_string(i32::MIN).as_str(), "-2147483648");
}

#[test]
fn labels_join_in_order() {
    let all = vec![
        KiribanReason::Consecutive,
        KiribanReason::SeriesOfZero,
        KiribanReason::Repdigit,
    ];
    assert_eq!(
        join_reason_labels(&all).as_str(),
        "consecutive, series of zero, repdigit"
    );
    assert_eq!(join_reason_labels(&vec![]).as_str(), "");
}

#[test]
fn kiriban_message_names_the_reason() {
    let j = judge_kiriban(123);
    assert!(judgement_is_kiriban(&j));
    assert_eq!(
        judgement_message(&j).as_str(),
        "123 is kiriban, because of consecutive"
    );
}

#[test]
fn too_small_message() {
    let j = judge_kiriban(50);
    assert!(!judgement_is_kiriban(&j));
    assert_eq!(judgement_message(&j).as_str(), "50 is too small");
}

#[test]
fn negative_too_small_message() {
    let j = judge_kiriban(-42);
    assert!(!judgement_is_kiriban(&j));
    assert_eq!(judgement_message(&j).as_str(), "-42 is too small");
}

#[test]
fn no_pattern_message() {
    let j = judge_kiriban(101);
    assert!(!judgement_is_kiriban(&j));
    assert_eq!(judgement_message(&j).as_str(), "101 is not kiriban");
}

#[test]
fn series_of_zero_message() {
    let j = judge_kiriban(200000);
    assert!(judgement_is_kiriban(&j));
    assert_eq!(
        judgement_message(&j).as_str(),
        "200000 is kiriban, because of series of zero"
    );
}

#[test]
fn repdigit_message() {
    let j = judge_kiriban(5555555);
    assert!(judgement_is_kiriban(&j));
    assert_eq!(
        judgement_message(&j).as_str(),
        "5555555 is kiriban, because of repdigit"
    );
}
