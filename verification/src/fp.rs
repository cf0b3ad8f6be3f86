//! A small concrete prime field, used to run and test the synthesis layer.
//!
//! The demonstration circuit only ever touches the residues 0, 1, 2 and -1,
//! so a one-byte field of order 251 (the largest prime below 256) is enough
//! to exercise every contract while keeping all executable arithmetic inside
//! `u16`. The proof backend's own scalar field replaces it at proving time.

use vstd::prelude::*;
use vstd::arithmetic::div_mod::{lemma_add_mod_noop, lemma_mul_mod_noop};
use crate::field::FieldOps;

verus! {

/// The order of the field: the largest prime that fits in one byte.
pub const FP_ORDER: u8 = 251;

/// An element of the prime field of order 251, kept as its least residue.
#[derive(Clone, Copy, Debug)]
pub struct Fp {
    v: u8,
}

impl Fp {
    /// The least residue of `n` modulo the field order.
    pub fn from_u64(n: u64) -> (r: Fp)
        ensures
            r.value() == n as nat % 251,
    {
        Fp { v: (n % 251) as u8 }
    }

    /// The residue this element stands for, as a machine integer.
    pub fn repr(&self) -> (r: u8)
        ensures
            r as nat == self.value(),
    {
        self.v % 251
    }
}

impl FieldOps for Fp {
    closed spec fn value(self) -> nat {
        (self.v % 251) as nat
    }

    closed spec fn modulus() -> nat {
        251
    }

    proof fn lemma_modulus_at_least_two() {
    }

    proof fn lemma_value_in_range(self) {
    }

    fn zero() -> (r: Fp) {
        Fp { v: 0 }
    }

    fn one() -> (r: Fp) {
        Fp { v: 1 }
    }

    fn is_zero(&self) -> (r: bool) {
        self.v % 251 == 0
    }

    fn equals(&self, other: &Fp) -> (r: bool) {
        self.v % 251 == other.v % 251
    }

    fn add(self, other: Fp) -> (r: Fp) {
        proof {
            lemma_add_mod_noop(self.v as int, other.v as int, 251);
        }
        Fp { v: ((self.v as u16 + other.v as u16) % 251) as u8 }
    }

    fn mul(self, other: Fp) -> (r: Fp) {
        proof {
            lemma_mul_mod_noop(self.v as int, other.v as int, 251);
            assert(self.v as int * other.v as int <= 255 * 255) by (nonlinear_arith)
                requires
                    self.v as int <= 255,
                    other.v as int <= 255,
            ;
        }
        Fp { v: ((self.v as u16 * other.v as u16) % 251) as u8 }
    }

    fn neg(self) -> (r: Fp) {
        let rest: u8 = self.v % 251;
        if rest == 0 {
            Fp { v: 0 }
        } else {
            Fp { v: 251 - rest }
        }
    }
}

} // verus!
