//! The three digit patterns that make a value a kiriban: a consecutive run,
//! a series of zeros after one leading digit, and a repeated digit.

use vstd::prelude::*;

verus! {

/// The ascending reference run of digits, `1` through `9`.
pub open spec fn ascending_run() -> Seq<u8> {
    seq![1u8, 2u8, 3u8, 4u8, 5u8, 6u8, 7u8, 8u8, 9u8]
}

/// The descending reference run of digits, `9` down to `1`.
pub open spec fn descending_run() -> Seq<u8> {
    seq![9u8, 8u8, 7u8, 6u8, 5u8, 4u8, 3u8, 2u8, 1u8]
}

/// `s` occurs contiguously inside `t`.
pub open spec fn is_substring_of(s: Seq<u8>, t: Seq<u8>) -> bool {
    exists|i: int| 0 <= i && i + s.len() <= t.len() && s == #[trigger] t.subrange(i, i + s.len() as int)
}

/// The digits form a contiguous run of the ascending sequence `123456789`
/// or of the descending sequence `987654321`.
pub open spec fn is_consecutive(s: Seq<u8>) -> bool {
    is_substring_of(s, ascending_run()) || is_substring_of(s, descending_run())
}

/// One non-zero leading digit followed by one or more zeros and nothing else.
pub open spec fn is_series_of_zero(s: Seq<u8>) -> bool {
    &&& s.len() >= 2
    &&& 1 <= s[0] <= 9
    &&& forall|j: int| 1 <= j < s.len() ==> s[j] == 0
}

/// A single non-zero digit repeated one or more times.
pub open spec fn is_repdigit(s: Seq<u8>) -> bool {
    &&& s.len() >= 1
    &&& 1 <= s[0] <= 9
    &&& forall|j: int| 0 <= j < s.len() ==> #[trigger] s[j] == s[0]
}

/// Whether `needle` matches `hay` at offset `off`.
fn matches_at(needle: &Vec<u8>, hay: &Vec<u8>, off: usize) -> (r: bool)
    requires
        off + needle.len() <= hay.len(),
    ensures
        r == (needle@ == hay@.subrange(off as int, off + needle@.len())),
{
    let ghost sub: Seq<u8> = hay@.subrange(off as int, off + needle@.len());
    let mut j: usize = 0;
    while j < needle.len()
        invariant
            off + needle.len() <= hay.len(),
            j <= needle.len(),
            sub == hay@.subrange(off as int, off + needle@.len()),
            forall|k: int| 0 <= k < j ==> needle@[k] == hay@[off + k],
        decreases needle@.len() - j,
    {
        if needle[j] != hay[off + j] {
            proof {
                assert(sub[j as int] == hay@[off + j]);
            }
            return false;
        }
        j += 1;
    }
    proof {
        assert(needle@ =~= sub);
    }
    true
}

/// Whether `needle` occurs contiguously inside `hay`.
fn is_substring(needle: &Vec<u8>, hay: &Vec<u8>) -> (r: bool)
    ensures
        r == is_substring_of(needle@, hay@),
{
    let n: usize = needle.len();
    if n > hay.len() {
        return false;
    }
    if n == 0 {
        proof {
            assert(needle@ =~= hay@.subrange(0, 0 + needle@.len() as int));
            assert(needle@ == hay@.subrange(0, 0 + needle@.len() as int));
        }
        return true;
    }
    let mut i: usize = 0;
    while i <= hay.len() - n
        invariant
            1 <= n == needle.len(),
            n <= hay.len(),
            i <= hay.len() - n + 1,
            forall|k: int| 0 <= k < i ==> needle@ != #[trigger] hay@.subrange(k, k + n as int),
        decreases hay.len() - i,
    {
        if matches_at(needle, hay, i) {
            proof {
                assert(0 <= i as int && i as int + needle@.len() <= hay@.len() && needle@
                    == hay@.subrange(i as int, i as int + needle@.len() as int));
            }
            return true;
        }
        i += 1;
    }
    proof {
        assert forall|k: int|
            !(0 <= k && k + needle@.len() <= hay@.len() && needle@ == #[trigger] hay@.subrange(
                k,
                k + needle@.len() as int,
            )) by {
            if 0 <= k && k + n <= hay@.len() {
                assert(k < i);
            }
        }
    }
    false
}

/// Whether the digit vector forms a consecutive ascending or descending run.
pub fn check_consecutive(digits: &Vec<u8>) -> (r: bool)
    ensures
        r == is_consecutive(digits@),
{
    let mut asc: Vec<u8> = Vec::new();
    asc.push(1);
    asc.push(2);
    asc.push(3);
    asc.push(4);
    asc.push(5);
    asc.push(6);
    asc.push(7);
    asc.push(8);
    asc.push(9);
    proof {
        assert(asc@ =~= ascending_run());
    }
    let mut desc: Vec<u8> = Vec::new();
    desc.push(9);
    desc.push(8);
    desc.push(7);
    desc.push(6);
    desc.push(5);
    desc.push(4);
    desc.push(3);
    desc.push(2);
    desc.push(1);
    proof {
        assert(desc@ =~= descending_run());
    }
    if is_substring(digits, &asc) {
        true
    } else {
        is_substring(digits, &desc)
    }
}

/// Whether the digit vector is one non-zero digit followed only by zeros.
pub fn check_series_of_zero(digits: &Vec<u8>) -> (r: bool)
    ensures
        r == is_series_of_zero(digits@),
{
    if digits.len() < 2 {
        return false;
    }
    let head: u8 = digits[0];
    if head < 1 || head > 9 {
        return false;
    }
    let mut j: usize = 1;
    while j < digits.len()
        invariant
            1 <= j <= digits@.len(),
            forall|k: int| 1 <= k < j ==> digits@[k] == 0,
        decreases digits@.len() - j,
    {
        if digits[j] != 0 {
            return false;
        }
        j += 1;
    }
    true
}

/// Whether the digit vector is a single non-zero digit repeated.
pub fn check_repdigit(digits: &Vec<u8>) -> (r: bool)
    ensures
        r == is_repdigit(digits@),
{
    if digits.len() == 0 {
        return false;
    }
    let head: u8 = digits[0];
    if head < 1 || head > 9 {
        return false;
    }
    let mut j: usize = 1;
    while j < digits.len()
        invariant
            1 <= j <= digits@.len(),
            digits@.len() >= 1,
            head == digits@[0],
            forall|k: int| 0 <= k < j ==> #[trigger] digits@[k] == digits@[0],
        decreases digits@.len() - j,
    {
        if digits[j] != head {
            return false;
        }
        j += 1;
    }
    true
}

/// Every digit of a consecutive run lies between one and nine.
pub proof fn lemma_consecutive_digits_nonzero(s: Seq<u8>)
    requires
        is_consecutive(s),
    ensures
        forall|j: int| 0 <= j < s.len() ==> 1 <= #[trigger] s[j] <= 9,
{
    if is_substring_of(s, ascending_run()) {
        let i = choose|i: int|
            0 <= i && i + s.len() <= ascending_run().len() && s == #[trigger] ascending_run().subrange(
                i,
                i + s.len() as int,
            );
        assert forall|j: int| 0 <= j < s.len() implies 1 <= #[trigger] s[j] <= 9 by {
            assert(s[j] == ascending_run()[i + j]);
        }
    } else {
        let i = choose|i: int|
            0 <= i && i + s.len() <= descending_run().len() && s == #[trigger] descending_run().subrange(
                i,
                i + s.len() as int,
            );
        assert forall|j: int| 0 <= j < s.len() implies 1 <= #[trigger] s[j] <= 9 by {
            assert(s[j] == descending_run()[i + j]);
        }
    }
}

/// Adjacent digits of a consecutive run of length two or more differ,
/// so such a run is never a repdigit.
pub proof fn lemma_consecutive_excludes_repdigit(s: Seq<u8>)
    requires
        s.len() >= 2,
        is_consecutive(s),
    ensures
        !is_repdigit(s),
{
    if is_substring_of(s, ascending_run()) {
        let i = choose|i: int|
            0 <= i && i + s.len() <= ascending_run().len() && s == #[trigger] ascending_run().subrange(
                i,
                i + s.len() as int,
            );
        assert(s[0] == ascending_run()[i]);
        assert(s[1] == ascending_run()[i + 1]);
    } else {
        let i = choose|i: int|
            0 <= i && i + s.len() <= descending_run().len() && s == #[trigger] descending_run().subrange(
                i,
                i + s.len() as int,
            );
        assert(s[0] == descending_run()[i]);
        assert(s[1] == descending_run()[i + 1]);
    }
}

/// A consecutive run contains no zero digit, so a run of length two or more
/// is never a series of zeros.
pub proof fn lemma_consecutive_excludes_series_of_zero(s: Seq<u8>)
    requires
        s.len() >= 2,
        is_consecutive(s),
    ensures
        !is_series_of_zero(s),
{
    lemma_consecutive_digits_nonzero(s);
    assert(1 <= s[1] <= 9);
}

/// A series of zeros holds a zero where a repdigit repeats its non-zero
/// leading digit: for strings of length two or more the two patterns are
/// mutually exclusive.
pub proof fn lemma_series_of_zero_excludes_repdigit(s: Seq<u8>)
    requires
        s.len() >= 2,
    ensures
        !(is_series_of_zero(s) && is_repdigit(s)),
{
    if is_series_of_zero(s) && is_repdigit(s) {
        assert(s[1] == 0);
        assert(s[1] == s[0]);
    }
}

} // verus!
