//! Outside types that the library's values carry without looking inside.
use vstd::prelude::*;

verus! {

/// `rust_decimal::Decimal`: a 96-bit decimal number.
#[verifier::external_type_specification]
#[verifier::external_body]
pub struct ExDecimal(rust_decimal::Decimal);

/// `Clone` of `rust_decimal::Decimal`, which is derived and `Copy`: the
/// copy equals the value cloned.
pub assume_specification[ <rust_decimal::Decimal as core::clone::Clone>::clone ](
    d: &rust_decimal::Decimal,
) -> (r: rust_decimal::Decimal)
    ensures
        r == *d,
;

} // verus!
