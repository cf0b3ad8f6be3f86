//! The boolean-XOR demonstration circuit.
//!
//! The circuit allocates two private bits `a` and `b`, forces each to be
//! boolean with `a*a = a` and `b*b = b`, allocates the public output `c`
//! computed as `1` when exactly one of `a`, `b` is nonzero and `0` otherwise,
//! and registers the single quadratic identity `(2a) * (b) = (a + b - c)`,
//! which is equivalent to `c = a XOR b` once `a` and `b` are boolean.
//!
//! The synthesis contract pins the produced topology to `demo_constraints`,
//! which does not mention the witness at all: a setup-mode pass and a
//! prover-mode pass are thereby proved to produce identical variables and
//! constraints, which the backend's setup/prove split relies on.

use vstd::prelude::*;
use crate::field::FieldOps;
use crate::lc::{lc_contains_var, residue_add, residue_neg, LinearCombination, Variable, Visibility};
use crate::system::{ConstraintModel, ConstraintSystem, Mode, SynthesisError};

verus! {

/// A circuit: a value holding the (possibly unknown) witness data, consumed
/// exactly once to allocate its variables and register its constraints in a
/// fresh session.
pub trait Circuit<F: FieldOps>: Sized {
    fn synthesize(self, cs: &mut ConstraintSystem<F>) -> (r: Result<(), SynthesisError>)
        requires
            old(cs).wf(),
            old(cs).is_fresh(),
        ensures
            final(cs).wf(),
            final(cs).mode() == old(cs).mode(),
    ;
}

/// The visibility tags of the demonstration circuit's variables, in
/// allocation order: private `a`, private `b`, public `c`.
pub open spec fn demo_variables() -> Seq<Visibility> {
    seq![Visibility::Private, Visibility::Private, Visibility::Public]
}

/// The variable handle the demonstration circuit receives at position `i`.
pub open spec fn demo_variable(i: int) -> Variable {
    Variable { vis: demo_variables()[i], index: i as usize }
}

/// A one-term combination `1 * v` with constant zero.
pub open spec fn unit_lc(v: Variable) -> (Seq<(Variable, nat)>, nat) {
    (seq![(v, 1nat)], 0nat)
}

/// The demonstration circuit's three constraints over the field of order
/// `m`: `a*a = a`, `b*b = b`, and `(2a) * (b) = (a + b - c)`.
pub open spec fn demo_constraints(m: nat) -> Seq<ConstraintModel> {
    seq![
        (unit_lc(demo_variable(0)), unit_lc(demo_variable(0)), unit_lc(demo_variable(0))),
        (unit_lc(demo_variable(1)), unit_lc(demo_variable(1)), unit_lc(demo_variable(1))),
        (
            (seq![(demo_variable(0), 2nat % m)], 0nat),
            unit_lc(demo_variable(1)),
            (
                seq![
                    (demo_variable(0), 1nat),
                    (demo_variable(1), 1nat),
                    (demo_variable(2), (m - 1) as nat),
                ],
                0nat,
            ),
        ),
    ]
}

/// The witness rule for the public output: `1` when exactly one of the two
/// inputs is nonzero, else `0`.
pub open spec fn xor_rule(av: nat, bv: nat) -> nat {
    if (av == 0) == (bv == 0) {
        0nat
    } else {
        1nat
    }
}

/// The boolean-XOR circuit value: the two private witness bits, each either
/// known (`Some`) or unknown (`None`, as in a setup-mode pass).
pub struct DemoCircuit<F: FieldOps> {
    pub a: Option<F>,
    pub b: Option<F>,
}

impl<F: FieldOps> DemoCircuit<F> {
    /// Synthesize the circuit into the fresh session `cs`.
    ///
    /// The resulting topology equals `demo_variables` / `demo_constraints`
    /// whatever the witness holds, so any two successful passes agree on it.
    /// In prover mode the recorded assignment is `a`, `b` and the computed
    /// `c = a XOR b`; a missing witness bit fails with `AssignmentMissing`.
    /// In setup mode the pass always succeeds: the provider outcome for `c`
    /// is missing there, and that failure is absorbed, not propagated.
    pub fn build(self, cs: &mut ConstraintSystem<F>) -> (r: Result<(), SynthesisError>)
        requires
            old(cs).wf(),
            old(cs).is_fresh(),
        ensures
            final(cs).wf(),
            final(cs).mode() == old(cs).mode(),
            !final(cs).is_closed(),
            r is Ok <==> (old(cs).mode() == Mode::Setup || (self.a is Some && self.b is Some)),
            r is Err ==> r == Result::<(), SynthesisError>::Err(SynthesisError::AssignmentMissing),
            r is Ok ==> final(cs).variables() == demo_variables(),
            r is Ok ==> final(cs).constraints_model() == demo_constraints(F::modulus()),
            (r is Ok && old(cs).mode() == Mode::Setup) ==> final(cs).assignments_model()
                == seq![Option::<nat>::None, None, None],
            (r is Ok && old(cs).mode() == Mode::Prover) ==> final(cs).assignments_model()
                == seq![
                    Some(self.a->Some_0.value()),
                    Some(self.b->Some_0.value()),
                    Some(xor_rule(self.a->Some_0.value(), self.b->Some_0.value())),
                ],
    {
        let ghost m = F::modulus();
        proof {
            F::lemma_modulus_at_least_two();
        }
        let a_var = cs.alloc_private("a", self.a)?;
        let b_var = cs.alloc_private("b", self.b)?;

        // The witness-computation rule for the public output: defined only
        // when both inputs are known; its failure is expected in setup mode.
        let c_value: Option<F> = match (&self.a, &self.b) {
            (Some(av), Some(bv)) => {
                if av.is_zero() == bv.is_zero() {
                    Some(F::zero())
                } else {
                    Some(F::one())
                }
            },
            _ => None,
        };
        let c_var = cs.alloc_input("c", c_value)?;

        proof {
            assert(a_var == demo_variable(0));
            assert(b_var == demo_variable(1));
            assert(c_var == demo_variable(2));
            assert(cs.variables() =~= demo_variables());
        }

        let a1 = LinearCombination::<F>::new().add_variable(a_var);
        let a2 = LinearCombination::<F>::new().add_variable(a_var);
        let a3 = LinearCombination::<F>::new().add_variable(a_var);
        proof {
            assert(!lc_contains_var(Seq::<(Variable, nat)>::empty(), a_var));
            assert(a1.terms_model() =~= unit_lc(demo_variable(0)).0);
            assert(a2.terms_model() =~= unit_lc(demo_variable(0)).0);
            assert(a3.terms_model() =~= unit_lc(demo_variable(0)).0);
        }
        cs.enforce("a is boolean", a1, a2, a3)?;
        let b1 = LinearCombination::<F>::new().add_variable(b_var);
        let b2 = LinearCombination::<F>::new().add_variable(b_var);
        let b3 = LinearCombination::<F>::new().add_variable(b_var);
        let lc_b = LinearCombination::<F>::new().add_variable(b_var);
        proof {
            assert(!lc_contains_var(Seq::<(Variable, nat)>::empty(), b_var));
            assert(b1.terms_model() =~= unit_lc(demo_variable(1)).0);
            assert(b2.terms_model() =~= unit_lc(demo_variable(1)).0);
            assert(b3.terms_model() =~= unit_lc(demo_variable(1)).0);
            assert(lc_b.terms_model() =~= unit_lc(demo_variable(1)).0);
        }
        cs.enforce("b is boolean", b1, b2, b3)?;

        let xor_a = LinearCombination::<F>::new().add_variable(a_var).add_variable(a_var);
        proof {
            assert(lc_contains_var(seq![(a_var, 1nat)], a_var)) by {
                assert(seq![(a_var, 1nat)][0].0 == a_var);
            }
            assert(xor_a.terms_model() =~= seq![(demo_variable(0), 2nat % m)]) by {
                assert(xor_a.terms_model().len() == 1);
                assert(xor_a.terms_model()[0] == (a_var, residue_add(1nat, 1nat, m)));
            }
        }
        let xor_c = LinearCombination::<F>::new().add_variable(a_var).add_variable(
            b_var,
        ).sub_variable(c_var);
        proof {
            assert(!lc_contains_var(seq![(a_var, 1nat)], b_var)) by {
                assert(seq![(a_var, 1nat)].len() == 1);
            }
            assert(!lc_contains_var(seq![(a_var, 1nat), (b_var, 1nat)], c_var)) by {
                assert(seq![(a_var, 1nat), (b_var, 1nat)].len() == 2);
            }
            assert(xor_c.terms_model() =~= seq![
                (demo_variable(0), 1nat),
                (demo_variable(1), 1nat),
                (demo_variable(2), (m - 1) as nat),
            ]);
        }
        cs.enforce("a xor b = c", xor_a, lc_b, xor_c)?;

        proof {
            assert(cs.constraints_model() =~~= demo_constraints(m));
            if old(cs).mode() == Mode::Setup {
                assert(cs.assignments_model() =~= seq![Option::<nat>::None, None, None]);
            } else {
                assert(cs.assignments_model() =~= seq![
                    Some(self.a->Some_0.value()),
                    Some(self.b->Some_0.value()),
                    Some(xor_rule(self.a->Some_0.value(), self.b->Some_0.value())),
                ]);
            }
        }
        Ok(())
    }
}

impl<F: FieldOps> Circuit<F> for DemoCircuit<F> {
    fn synthesize(self, cs: &mut ConstraintSystem<F>) -> (r: Result<(), SynthesisError>) {
        self.build(cs)
    }
}

/// One side of a constraint, as plain replay data: `(variable position,
/// integer coefficient)` pairs.
pub type TableLc = Vec<(usize, i64)>;

/// The field residue an integer coefficient stands for in a field of order
/// `m`: its magnitude reduced, then negated for a negative integer.
pub open spec fn coeff_residue(k: i64, m: nat) -> nat {
    if k >= 0 {
        (k as nat) % m
    } else {
        residue_neg(((-k) as nat) % m, m)
    }
}

/// True when row `j` of the replay table, embedded into the field of order
/// `m`, is exactly constraint `j` of the topology `build` registers, whose
/// constant terms are all zero.
pub open spec fn table_matches(rows: Seq<(TableLc, TableLc, TableLc)>, j: int, m: nat) -> bool {
    &&& embed_terms(rows[j].0@, m) == demo_constraints(m)[j].0.0
    &&& embed_terms(rows[j].1@, m) == demo_constraints(m)[j].1.0
    &&& embed_terms(rows[j].2@, m) == demo_constraints(m)[j].2.0
    &&& demo_constraints(m)[j].0.1 == 0
    &&& demo_constraints(m)[j].1.1 == 0
    &&& demo_constraints(m)[j].2.1 == 0
}

/// The field terms an integer replay side stands for.
pub open spec fn embed_terms(ts: Seq<(usize, i64)>, m: nat) -> Seq<(Variable, nat)> {
    ts.map_values(|t: (usize, i64)| (demo_variable(t.0 as int), coeff_residue(t.1, m)))
}

/// The demonstration circuit's constraints as plain data, for replaying the
/// topology into an outside proof backend whose field this layer cannot
/// carry: for each constraint, the integer coefficient tables of its three
/// sides. Embedding each side into any field of order at least two gives
/// exactly the constraints that `build` registers (`demo_constraints`), and
/// every constant term there is zero; the variable tags are `demo_variables`.
pub fn demo_constraint_table() -> (r: Vec<(TableLc, TableLc, TableLc)>)
    ensures
        r@.len() == demo_constraints(2).len(),
        forall|j: int, m: nat| 0 <= j < 3 && m >= 2 ==> #[trigger] table_matches(r@, j, m),
{
    let r: Vec<(TableLc, TableLc, TableLc)> = vec![
        (vec![(0usize, 1i64)], vec![(0usize, 1i64)], vec![(0usize, 1i64)]),
        (vec![(1usize, 1i64)], vec![(1usize, 1i64)], vec![(1usize, 1i64)]),
        (
            vec![(0usize, 2i64)],
            vec![(1usize, 1i64)],
            vec![(0usize, 1i64), (1usize, 1i64), (2usize, -1i64)],
        ),
    ];
    proof {
        assert forall|j: int, m: nat| 0 <= j < 3 && m >= 2 implies #[trigger] table_matches(
            r@,
            j,
            m,
        ) by {
            vstd::arithmetic::div_mod::lemma_small_mod(1nat, m);
            vstd::arithmetic::div_mod::lemma_small_mod(0nat, m);
            assert(coeff_residue(1i64, m) == 1nat);
            assert(coeff_residue(2i64, m) == 2nat % m);
            assert(coeff_residue(-1i64, m) == (m - 1) as nat);
            if j == 0 {
                assert(embed_terms(r@[0].0@, m) =~= unit_lc(demo_variable(0)).0);
                assert(embed_terms(r@[0].1@, m) =~= unit_lc(demo_variable(0)).0);
                assert(embed_terms(r@[0].2@, m) =~= unit_lc(demo_variable(0)).0);
            } else if j == 1 {
                assert(embed_terms(r@[1].0@, m) =~= unit_lc(demo_variable(1)).0);
                assert(embed_terms(r@[1].1@, m) =~= unit_lc(demo_variable(1)).0);
                assert(embed_terms(r@[1].2@, m) =~= unit_lc(demo_variable(1)).0);
            } else {
                assert(embed_terms(r@[2].0@, m) =~= seq![(demo_variable(0), 2nat % m)]);
                assert(embed_terms(r@[2].1@, m) =~= unit_lc(demo_variable(1)).0);
                assert(embed_terms(r@[2].2@, m) =~= seq![
                    (demo_variable(0), 1nat),
                    (demo_variable(1), 1nat),
                    (demo_variable(2), (m - 1) as nat),
                ]);
            }
        }
    }
    r
}

/// The visibility tags of the demonstration circuit's variables as plain
/// data, in allocation order, for the same replay.
pub fn demo_variable_tags() -> (r: Vec<Visibility>)
    ensures
        r@ == demo_variables(),
{
    let r: Vec<Visibility> = vec![Visibility::Private, Visibility::Private, Visibility::Public];
    proof {
        assert(r@ =~= demo_variables());
    }
    r
}

} // verus!
