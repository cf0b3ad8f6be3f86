//! The boundary with the proof backend's scalar field.
//!
//! The proving backend works over the BLS12-381 scalar field; this layer
//! never computes in that field itself, but the demonstration circuit's
//! witness rule for the public output does have to be evaluated on backend
//! elements when a proof is created. The layer reads a backend element
//! through one observation only — whether it is zero — so that is the whole
//! trusted surface: the zero element, the one element and the zero test.
//! The witness rule itself is verified against that model.

use vstd::prelude::*;
use pairing::bls12_381::Fr;

verus! {

#[verifier::external_type_specification]
#[verifier::external_body]
pub struct ExFr(Fr);

/// What `pairing::Field::is_zero` returns on a BLS12-381 scalar: whether the
/// element is the field's additive identity. It depends on the element alone.
pub uninterp spec fn fr_is_zero(x: Fr) -> bool;

/// Relies on pairing's `Field::zero` for `Fr`: it returns the additive
/// identity, the one element on which `is_zero` is true.
#[verifier::external_body]
fn fr_zero() -> (r: Fr)
    ensures
        fr_is_zero(r),
{
    <Fr as pairing::Field>::zero()
}

/// Relies on pairing's `Field::one` for `Fr`: it returns the multiplicative
/// identity, which in this prime field is not the zero element.
#[verifier::external_body]
fn fr_one() -> (r: Fr)
    ensures
        !fr_is_zero(r),
{
    <Fr as pairing::Field>::one()
}

/// Relies on pairing's `Field::is_zero` for `Fr`: it reports whether the
/// element is the field's zero.
#[verifier::external_body]
fn fr_test_zero(x: &Fr) -> (r: bool)
    ensures
        r == fr_is_zero(*x),
{
    pairing::Field::is_zero(x)
}

/// The demonstration circuit's witness rule for the public output, evaluated
/// over the backend's scalar field: zero when the two inputs are both zero
/// or both nonzero, one when exactly one of them is nonzero.
pub fn xor_output_fr(a: &Fr, b: &Fr) -> (r: Fr)
    ensures
        fr_is_zero(r) == (fr_is_zero(*a) == fr_is_zero(*b)),
{
    if fr_test_zero(a) == fr_test_zero(b) {
        fr_zero()
    } else {
        fr_one()
    }
}

} // verus!
