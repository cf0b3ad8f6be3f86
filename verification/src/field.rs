//! The minimal field capability this layer needs from a coefficient type.
//!
//! Constraint synthesis never performs real field arithmetic beyond the
//! additive identity, the multiplicative identity, a zero test, addition,
//! multiplication and negation, so only those operations are demanded here.
//! Every element is modelled by its residue `value()` in `[0, modulus())`.

use vstd::prelude::*;

verus! {

/// A coefficient or assignment value drawn from a finite field of prime
/// order `modulus()`. The trait pins each operation down to modular
/// arithmetic on the abstract residue, so everything built on top of it is
/// proved for any implementation, not for one concrete field.
pub trait FieldOps: Sized + Copy {
    /// The residue this element stands for, in `[0, modulus())`.
    spec fn value(self) -> nat;

    /// The order of the field.
    spec fn modulus() -> nat;

    proof fn lemma_modulus_at_least_two()
        ensures
            Self::modulus() >= 2,
    ;

    proof fn lemma_value_in_range(self)
        ensures
            self.value() < Self::modulus(),
    ;

    /// The additive identity.
    fn zero() -> (r: Self)
        ensures
            r.value() == 0,
    ;

    /// The multiplicative identity.
    fn one() -> (r: Self)
        ensures
            r.value() == 1,
    ;

    /// True exactly on the additive identity.
    fn is_zero(&self) -> (r: bool)
        ensures
            r == (self.value() == 0),
    ;

    /// Equality of the residues the two elements stand for.
    fn equals(&self, other: &Self) -> (r: bool)
        ensures
            r == (self.value() == other.value()),
    ;

    fn add(self, other: Self) -> (r: Self)
        ensures
            r.value() == (self.value() + other.value()) % Self::modulus(),
    ;

    fn mul(self, other: Self) -> (r: Self)
        ensures
            r.value() == (self.value() * other.value()) % Self::modulus(),
    ;

    /// The additive inverse.
    fn neg(self) -> (r: Self)
        ensures
            r.value() == if self.value() == 0 {
                0nat
            } else {
                (Self::modulus() - self.value()) as nat
            },
    ;
}

} // verus!
