//! The classifier: which patterns a value exhibits, and the resulting
//! judgement.

use vstd::prelude::*;
use crate::digits::{lemma_digits_len, spec_digits, to_digits};
use crate::patterns::{
    check_consecutive, check_repdigit, check_series_of_zero, is_consecutive, is_repdigit,
    is_series_of_zero, lemma_consecutive_excludes_repdigit,
    lemma_consecutive_excludes_series_of_zero, lemma_series_of_zero_excludes_repdigit,
};

verus! {

/// A pattern that justifies calling a value a kiriban.
#[derive(Clone, Copy, Debug, PartialEq, Eq, Structural)]
pub enum KiribanReason {
    /// The digits run along `123456789` or `987654321`, e.g. `123`, `56789`.
    Consecutive,
    /// One non-zero digit followed only by zeros, e.g. `100`, `200000`.
    SeriesOfZero,
    /// One non-zero digit repeated, e.g. `111`, `5555555`.
    Repdigit,
}

/// Why a value is not a kiriban.
#[derive(Clone, Copy, Debug, PartialEq, Eq, Structural)]
pub enum NonKiribanCause {
    /// The value lies below one hundred, e.g. `50`.
    TooSmall,
    /// The value is large enough but no pattern applies, e.g. `101`.
    NoPatternMatched,
}

/// The outcome of classifying one value.
#[derive(Debug, PartialEq, Eq)]
pub enum KiribanJudgement {
    /// The value is a kiriban, with the non-empty list of patterns that
    /// justify it, in evaluation order.
    Kiriban(i32, Vec<KiribanReason>),
    /// The value is not a kiriban, with the single cause.
    NonKiriban(i32, NonKiribanCause),
}

/// The mathematical form of a judgement: the value as an integer and the
/// reasons as a sequence.
pub enum JudgementModel {
    Kiriban(int, Seq<KiribanReason>),
    NonKiriban(int, NonKiribanCause),
}

impl View for KiribanJudgement {
    type V = JudgementModel;

    open spec fn view(&self) -> JudgementModel {
        match self {
            KiribanJudgement::Kiriban(v, rs) => JudgementModel::Kiriban(*v as int, rs@),
            KiribanJudgement::NonKiriban(v, c) => JudgementModel::NonKiriban(*v as int, *c),
        }
    }
}

/// The reasons that apply to a digit sequence, in the fixed evaluation
/// order: Consecutive, then SeriesOfZero, then Repdigit.
pub open spec fn spec_reasons(s: Seq<u8>) -> Seq<KiribanReason> {
    (if is_consecutive(s) {
        seq![KiribanReason::Consecutive]
    } else {
        Seq::<KiribanReason>::empty()
    }) + (if is_series_of_zero(s) {
        seq![KiribanReason::SeriesOfZero]
    } else {
        Seq::<KiribanReason>::empty()
    }) + (if is_repdigit(s) {
        seq![KiribanReason::Repdigit]
    } else {
        Seq::<KiribanReason>::empty()
    })
}

/// What classifying `v` must yield: below one hundred the value is too
/// small; otherwise the patterns of its decimal digits decide.
pub open spec fn spec_classify(v: int) -> JudgementModel {
    if v < 100 {
        JudgementModel::NonKiriban(v, NonKiribanCause::TooSmall)
    } else {
        let rs = spec_reasons(spec_digits(v as nat));
        if rs.len() == 0 {
            JudgementModel::NonKiriban(v, NonKiribanCause::NoPatternMatched)
        } else {
            JudgementModel::Kiriban(v, rs)
        }
    }
}

/// The patterns that `value`'s decimal form exhibits, in evaluation order.
pub fn judge_kiriban_reasons(value: i32) -> (r: Vec<KiribanReason>)
    requires
        value >= 100,
    ensures
        r@ == spec_reasons(spec_digits(value as nat)),
{
    let ds = to_digits(value as u32);
    let mut reasons: Vec<KiribanReason> = Vec::new();
    if check_consecutive(&ds) {
        reasons.push(KiribanReason::Consecutive);
    }
    if check_series_of_zero(&ds) {
        reasons.push(KiribanReason::SeriesOfZero);
    }
    if check_repdigit(&ds) {
        reasons.push(KiribanReason::Repdigit);
    }
    proof {
        assert(reasons@ =~= spec_reasons(spec_digits(value as nat)));
    }
    reasons
}

/// Classifies `value`: `Kiriban` with the non-empty reasons in evaluation
/// order, or `NonKiriban` with the cause.
pub fn judge_kiriban(value: i32) -> (r: KiribanJudgement)
    ensures
        r@ == spec_classify(value as int),
{
    if value < 100 {
        return KiribanJudgement::NonKiriban(value, NonKiribanCause::TooSmall);
    }
    let reasons = judge_kiriban_reasons(value);
    if reasons.len() == 0 {
        KiribanJudgement::NonKiriban(value, NonKiribanCause::NoPatternMatched)
    } else {
        KiribanJudgement::Kiriban(value, reasons)
    }
}

/// A kiriban judgement always carries at least one reason, for the value it
/// judged; a non-kiriban judgement carries none.
pub proof fn lemma_kiriban_reasons_nonempty(v: int)
    ensures
        spec_classify(v) matches JudgementModel::Kiriban(w, rs) ==> w == v && rs.len() >= 1,
        spec_classify(v) matches JudgementModel::NonKiriban(w, _) ==> w == v,
{
}

/// For a digit string of length two or more, at most one pattern applies:
/// the three patterns are pairwise exclusive there.
pub proof fn lemma_at_most_one_reason(s: Seq<u8>)
    requires
        s.len() >= 2,
    ensures
        spec_reasons(s).len() <= 1,
{
    if is_consecutive(s) {
        lemma_consecutive_excludes_repdigit(s);
        lemma_consecutive_excludes_series_of_zero(s);
    } else {
        lemma_series_of_zero_excludes_repdigit(s);
    }
}

/// An eligible value carries at most one reason: its decimal form has at
/// least three digits, and on such strings the patterns exclude each other.
pub proof fn lemma_classify_single_reason(v: int)
    requires
        v >= 100,
    ensures
        spec_reasons(spec_digits(v as nat)).len() <= 1,
{
    lemma_digits_len(v as nat);
    lemma_at_most_one_reason(spec_digits(v as nat));
}

} // verus!
