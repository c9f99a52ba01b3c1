//! The order of two numbers, asked of `rustc_apfloat`.

use vstd::prelude::*;
use rustc_apfloat::ieee::Double;
use rustc_apfloat::Float;
use crate::number::{compared_bits, Comparison};

verus! {

/// `PartialOrd::partial_cmp` of `rustc_apfloat::ieee::Double`: the answer
/// depends on the two encodings alone. Where the crate gives no order, the
/// two are unordered.
#[verifier::external_body]
pub(crate) fn compare_bits(a: u64, b: u64) -> (c: Comparison)
    ensures
        c == compared_bits(a, b),
{
    let x = Double::from_bits(u128::from(a));
    let y = Double::from_bits(u128::from(b));
    match x.partial_cmp(&y) {
        Some(std::cmp::Ordering::Less) => Comparison::Less,
        Some(std::cmp::Ordering::Equal) => Comparison::Equal,
        Some(std::cmp::Ordering::Greater) => Comparison::Greater,
        None => Comparison::Unordered,
    }
}

} // verus!
