//! Rendering judgements as the exact output lines: the value in decimal,
//! the reason labels, and the three message forms.

use vstd::prelude::*;
use vstd::string::*;
use crate::classify::{JudgementModel, KiribanJudgement, KiribanReason, NonKiribanCause};
use crate::digits::{lemma_digits_bounded, spec_digits, to_digits};

verus! {

/// The character for one decimal digit value.
pub open spec fn digit_char(d: u8) -> char {
    if d == 0 {
        '0'
    } else if d == 1 {
        '1'
    } else if d == 2 {
        '2'
    } else if d == 3 {
        '3'
    } else if d == 4 {
        '4'
    } else if d == 5 {
        '5'
    } else if d == 6 {
        '6'
    } else if d == 7 {
        '7'
    } else if d == 8 {
        '8'
    } else {
        '9'
    }
}

/// A digit sequence rendered as characters.
pub open spec fn spec_digit_chars(s: Seq<u8>) -> Seq<char> {
    s.map(|i: int, d: u8| digit_char(d))
}

/// The decimal text of an integer: a minus sign for negative values, then
/// the digits of the magnitude.
pub open spec fn spec_value_chars(v: int) -> Seq<char> {
    if v < 0 {
        seq!['-'] + spec_digit_chars(spec_digits((-v) as nat))
    } else {
        spec_digit_chars(spec_digits(v as nat))
    }
}

/// The one-character text of a single decimal digit.
fn digit_str(d: u8) -> (r: &'static str)
    requires
        d <= 9,
    ensures
        r@ == seq![digit_char(d)],
{
    proof {
        reveal_strlit("0");
        reveal_strlit("1");
        reveal_strlit("2");
        reveal_strlit("3");
        reveal_strlit("4");
        reveal_strlit("5");
        reveal_strlit("6");
        reveal_strlit("7");
        reveal_strlit("8");
        reveal_strlit("9");
    }
    let r: &'static str = match d {
        0 => "0",
        1 => "1",
        2 => "2",
        3 => "3",
        4 => "4",
        5 => "5",
        6 => "6",
        7 => "7",
        8 => "8",
        _ => "9",
    };
    proof {
        assert(r@ =~= seq![digit_char(d)]);
    }
    r
}

/// Renders an integer as its decimal text, sign included.
pub fn value_to_string(v: i32) -> (r: String)
    ensures
        r@ == spec_value_chars(v as int),
{
    let mut s = String::new();
    if v < 0 {
        s.append("-");
        proof {
            reveal_strlit("-");
            assert(s@ =~= seq!['-']);
        }
    }
    let mag: u32 = if v < 0 {
        (-(v as i64)) as u32
    } else {
        v as u32
    };
    proof {
        if v < 0 {
            assert(mag as nat == (-(v as int)) as nat);
        }
    }
    let ds = to_digits(mag);
    proof {
        lemma_digits_bounded(mag as nat);
    }
    let ghost prefix: Seq<char> = s@;
    let mut k: usize = 0;
    while k < ds.len()
        invariant
            k <= ds.len(),
            ds@ == spec_digits(mag as nat),
            forall|j: int| 0 <= j < ds@.len() ==> ds@[j] < 10,
            s@ == prefix + spec_digit_chars(ds@.subrange(0, k as int)),
        decreases ds.len() - k,
    {
        let d: u8 = ds[k];
        s.append(digit_str(d));
        proof {
            assert(ds@.subrange(0, k + 1) =~= ds@.subrange(0, k as int).push(ds@[k as int]));
            assert(spec_digit_chars(ds@.subrange(0, k + 1)) =~= spec_digit_chars(
                ds@.subrange(0, k as int),
            ).push(digit_char(ds@[k as int])));
            assert(s@ =~= prefix + spec_digit_chars(ds@.subrange(0, k + 1)));
        }
        k += 1;
    }
    proof {
        assert(ds@.subrange(0, ds@.len() as int) =~= ds@);
        assert(s@ =~= spec_value_chars(v as int));
    }
    s
}

/// The label of one reason, as it appears in the output line.
pub open spec fn spec_reason_label(r: KiribanReason) -> Seq<char> {
    match r {
        KiribanReason::Consecutive => "consecutive"@,
        KiribanReason::SeriesOfZero => "series of zero"@,
        KiribanReason::Repdigit => "repdigit"@,
    }
}

/// The label of one reason: `consecutive`, `series of zero` or `repdigit`.
pub fn conv_reason_to_string(reason: &KiribanReason) -> (r: String)
    ensures
        r@ == spec_reason_label(*reason),
{
    match reason {
        KiribanReason::Consecutive => String::from_str("consecutive"),
        KiribanReason::SeriesOfZero => String::from_str("series of zero"),
        KiribanReason::Repdigit => String::from_str("repdigit"),
    }
}

/// The reason labels joined by a comma and a space, in sequence order.
pub open spec fn spec_joined_labels(rs: Seq<KiribanReason>) -> Seq<char>
    decreases rs.len(),
{
    if rs.len() == 0 {
        Seq::<char>::empty()
    } else if rs.len() == 1 {
        spec_reason_label(rs[0])
    } else {
        spec_reason_label(rs[0]) + ", "@ + spec_joined_labels(rs.subrange(1, rs.len() as int))
    }
}

/// Joining after appending one reason appends its label, with a separator
/// whenever the sequence was non-empty.
proof fn lemma_joined_labels_push(rs: Seq<KiribanReason>, x: KiribanReason)
    ensures
        spec_joined_labels(rs.push(x)) == if rs.len() == 0 {
            spec_reason_label(x)
        } else {
            spec_joined_labels(rs) + ", "@ + spec_reason_label(x)
        },
    decreases rs.len(),
{
    let p = rs.push(x);
    if rs.len() == 0 {
        assert(p[0] == x);
    } else if rs.len() == 1 {
        assert(p[0] == rs[0]);
        assert(p.subrange(1, p.len() as int) =~= seq![x]);
        assert(spec_joined_labels(p.subrange(1, p.len() as int)) == spec_reason_label(x));
    } else {
        assert(p.subrange(1, p.len() as int) =~= rs.subrange(1, rs.len() as int).push(x));
        lemma_joined_labels_push(rs.subrange(1, rs.len() as int), x);
        assert(spec_joined_labels(p) =~= spec_joined_labels(rs) + ", "@ + spec_reason_label(x));
    }
}

/// Joins the labels of the given reasons with `", "`, in order.
pub fn join_reason_labels(reasons: &Vec<KiribanReason>) -> (r: String)
    ensures
        r@ == spec_joined_labels(reasons@),
{
    let mut s = String::new();
    let mut k: usize = 0;
    while k < reasons.len()
        invariant
            k <= reasons.len(),
            s@ == spec_joined_labels(reasons@.subrange(0, k as int)),
        decreases reasons.len() - k,
    {
        if k > 0 {
            s.append(", ");
        }
        let rk: KiribanReason = reasons[k];
        let text = conv_reason_to_string(&rk);
        s.append(text.as_str());
        proof {
            assert(reasons@.subrange(0, k + 1) =~= reasons@.subrange(0, k as int).push(
                reasons@[k as int],
            ));
            lemma_joined_labels_push(reasons@.subrange(0, k as int), reasons@[k as int]);
            if k == 0 {
                assert(s@ =~= spec_joined_labels(reasons@.subrange(0, k + 1)));
            }
        }
        k += 1;
    }
    proof {
        assert(reasons@.subrange(0, reasons@.len() as int) =~= reasons@);
    }
    s
}

/// The exact output line for a judgement: the kiriban message with the
/// joined reasons, or one of the two negative messages.
pub open spec fn spec_output_line(m: JudgementModel) -> Seq<char> {
    match m {
        JudgementModel::Kiriban(v, rs) => spec_value_chars(v) + " is kiriban, because of "@
            + spec_joined_labels(rs),
        JudgementModel::NonKiriban(v, NonKiribanCause::TooSmall) => spec_value_chars(v)
            + " is too small"@,
        JudgementModel::NonKiriban(v, NonKiribanCause::NoPatternMatched) => spec_value_chars(v)
            + " is not kiriban"@,
    }
}

/// Formats the message for a judgement, exactly as it is printed.
pub fn judgement_message(j: &KiribanJudgement) -> (r: String)
    ensures
        r@ == spec_output_line(j@),
{
    match j {
        KiribanJudgement::Kiriban(v, rs) => {
            let mut s = value_to_string(*v);
            s.append(" is kiriban, because of ");
            let joined = join_reason_labels(rs);
            s.append(joined.as_str());
            s
        },
        KiribanJudgement::NonKiriban(v, NonKiribanCause::TooSmall) => {
            let mut s = value_to_string(*v);
            s.append(" is too small");
            s
        },
        KiribanJudgement::NonKiriban(v, NonKiribanCause::NoPatternMatched) => {
            let mut s = value_to_string(*v);
            s.append(" is not kiriban");
            s
        },
    }
}

/// Whether the judgement is a success: only a kiriban prints to standard
/// output and exits with code zero.
pub fn judgement_is_kiriban(j: &KiribanJudgement) -> (r: bool)
    ensures
        r == (j@ is Kiriban),
{
    match j {
        KiribanJudgement::Kiriban(_, _) => true,
        KiribanJudgement::NonKiriban(_, _) => false,
    }
}

} // verus!
