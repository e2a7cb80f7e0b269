use vstd::prelude::*;

use crate::scalar::Scalar;

verus! {

/// The character of a decimal digit.
pub open spec fn digit_char(d: nat) -> char {
    seq!['0', '1', '2', '3', '4', '5', '6', '7', '8', '9'][d as int]
}

/// The decimal text of `n`: no sign, no leading zeros, "0" for zero.
pub open spec fn decimal(n: nat) -> Seq<char>
    decreases n,
{
    if n < 10 {
        seq![digit_char(n)]
    } else {
        decimal(n / 10).push(digit_char(n % 10))
    }
}

/// Relies on num-bigint's `BigUint::new`, which reads little-endian base-2^32
/// digits, and on its `Display`, which writes the number in decimal.
#[verifier::external_body]
fn decimal_text(s: &Scalar) -> (r: String)
    ensures
        r@ == decimal(s.value()),
{
    num_bigint::BigUint::new(s.digits.clone()).to_string()
}

/// The lines the output channel receives for `values`: one per value, in
/// order, each the value's decimal text.
pub fn output_lines(values: &Vec<Scalar>) -> (r: Vec<String>)
    ensures
        r@.len() == values@.len(),
        forall|i: int| 0 <= i < values@.len() ==> #[trigger] r@[i]@ == decimal(values@[i].value()),
{
    let mut r: Vec<String> = Vec::new();
    let mut i: usize = 0;
    while i < values.len()
        invariant
            i <= values@.len(),
            r@.len() == i,
            forall|j: int| 0 <= j < i ==> #[trigger] r@[j]@ == decimal(values@[j].value()),
        decreases values@.len() - i,
    {
        r.push(decimal_text(&values[i]));
        i = i + 1;
    }
    r
}

} // verus!
