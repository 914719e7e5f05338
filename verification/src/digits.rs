//! Decimal rendering of a non-negative integer as a sequence of digits,
//! most significant digit first, with no leading zeros.

use vstd::prelude::*;

verus! {

/// The decimal digits of `n`, most significant first.  `0` renders as the
/// single digit `0`; every other value starts with a non-zero digit.
pub open spec fn spec_digits(n: nat) -> Seq<u8>
    decreases n,
{
    if n < 10 {
        seq![n as u8]
    } else {
        spec_digits(n / 10).push((n % 10) as u8)
    }
}

/// Every digit of a decimal rendering lies below ten.
pub proof fn lemma_digits_bounded(n: nat)
    ensures
        forall|j: int| 0 <= j < spec_digits(n).len() ==> spec_digits(n)[j] < 10,
    decreases n,
{
    if n >= 10 {
        lemma_digits_bounded(n / 10);
        assert forall|j: int| 0 <= j < spec_digits(n).len() implies spec_digits(n)[j] < 10 by {
            if j < spec_digits(n / 10).len() {
                assert(spec_digits(n)[j] == spec_digits(n / 10)[j]);
            } else {
                assert(spec_digits(n)[j] == (n % 10) as u8);
            }
        }
    }
}

/// How many digits a value has: one below ten, two below a hundred, and at
/// least three from a hundred on.
pub proof fn lemma_digits_len(n: nat)
    ensures
        spec_digits(n).len() >= 1,
        n < 10 ==> spec_digits(n).len() == 1,
        n >= 10 ==> spec_digits(n).len() >= 2,
        n >= 100 ==> spec_digits(n).len() >= 3,
    decreases n,
{
    if n >= 10 {
        lemma_digits_len(n / 10);
    }
}

/// Renders `n` in decimal as a vector of digit values.
pub fn to_digits(n: u32) -> (r: Vec<u8>)
    ensures
        r@ == spec_digits(n as nat),
    decreases n,
{
    if n < 10 {
        let mut v: Vec<u8> = Vec::new();
        v.push(n as u8);
        proof {
            assert(v@ =~= spec_digits(n as nat));
        }
        v
    } else {
        let mut v: Vec<u8> = to_digits(n / 10);
        v.push((n % 10) as u8);
        proof {
            assert(v@ =~= spec_digits(n as nat));
        }
        v
    }
}

} // verus!
