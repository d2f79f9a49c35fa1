//! Integer literals of any size, written out through `num_bigint`.
use vstd::prelude::*;

use crate::text::decimal;

verus! {

/// The number that little-endian base-2^32 digits stand for (least
/// significant digit first).
pub open spec fn magnitude_value(digits: Seq<u32>) -> nat
    decreases digits.len(),
{
    if digits.len() == 0 {
        0
    } else {
        digits[0] as nat + 4294967296 * magnitude_value(digits.drop_first())
    }
}

/// The decimal text of the integer with the given sign and magnitude: a
/// minus sign only for a negative, non-zero value.
pub open spec fn signed_decimal(negative: bool, digits: Seq<u32>) -> Seq<char> {
    if negative && magnitude_value(digits) > 0 {
        seq!['-'] + decimal(magnitude_value(digits))
    } else {
        decimal(magnitude_value(digits))
    }
}

/// Writes the integer with sign `negative` and magnitude `magnitude` in
/// decimal.  The call is to `num_bigint::BigInt::from_slice`, which builds
/// the integer from base-2^32 digits, least significant first (a zero
/// magnitude gives zero, whatever the sign), and to `BigInt`'s `Display`,
/// which writes a `-` for a negative value and then the decimal digits of the
/// magnitude with no leading zeros.
#[verifier::external_body]
fn bigint_decimal(negative: bool, magnitude: &Vec<u32>) -> (r: String)
    ensures
        r@ == signed_decimal(negative, magnitude@),
{
    let sign = if negative {
        num_bigint::Sign::Minus
    } else {
        num_bigint::Sign::Plus
    };
    num_bigint::BigInt::from_slice(sign, magnitude).to_string()
}

/// An integer of any size: a sign and a magnitude in base-2^32 digits,
/// least significant first.
#[derive(Clone, Debug)]
pub struct IntLiteral {
    pub negative: bool,
    pub magnitude: Vec<u32>,
}

impl IntLiteral {
    /// The integer's value.
    pub open spec fn value(&self) -> int {
        if self.negative {
            -magnitude_value(self.magnitude@)
        } else {
            magnitude_value(self.magnitude@) as int
        }
    }

    /// The integer's decimal text.
    pub open spec fn text(&self) -> Seq<char> {
        signed_decimal(self.negative, self.magnitude@)
    }

    /// The literal for `v`.
    pub fn from_i64(v: i64) -> (r: IntLiteral)
        ensures
            r.value() == v,
    {
        let negative = v < 0;
        let abs: u64 = if negative {
            ((-(v + 1)) as u64) + 1
        } else {
            v as u64
        };
        let lo = (abs % 4294967296) as u32;
        let hi = (abs / 4294967296) as u32;
        let mut magnitude: Vec<u32> = Vec::new();
        magnitude.push(lo);
        magnitude.push(hi);
        proof {
            assert(magnitude@.drop_first() =~= seq![hi]);
            assert(magnitude@.drop_first().drop_first() =~= Seq::<u32>::empty());
            assert(magnitude_value(seq![hi]) == hi as nat) by {
                assert(seq![hi].drop_first() =~= Seq::<u32>::empty());
                reveal_with_fuel(magnitude_value, 2);
            }
        }
        IntLiteral { negative, magnitude }
    }

    /// The integer's decimal text.
    pub fn to_string(&self) -> (r: String)
        ensures
            r@ == self.text(),
    {
        bigint_decimal(self.negative, &self.magnitude)
    }

    /// A copy of the literal.
    pub fn duplicate(&self) -> (r: IntLiteral)
        ensures
            r.negative == self.negative,
            r.magnitude@ == self.magnitude@,
    {
        IntLiteral { negative: self.negative, magnitude: self.magnitude.clone() }
    }
}

} // verus!
