//! What this crate believes of code that it does not verify.

use vstd::prelude::*;

verus! {

/// The pixel type `rgb::RGB`, a struct of the three public fields `r`, `g`
/// and `b`. Nothing is claimed of it: the verifier reads the fields from the
/// definition in the `rgb` crate.
#[verifier::external_type_specification]
#[verifier::reject_recursive_types(Channel)]
pub struct ExRgb<Channel>(rgb::RGB<Channel>);

/// `From::from` of a type to itself, which the standard library implements
/// for every type and documents as returning its argument unchanged.
pub assume_specification<V>[ <V as core::convert::From<V>>::from ](value: V) -> (same: V)
    ensures
        same == value,
;

} // verus!
