//! The constraint-system session.
//!
//! A session owns the ordered sequence of allocated variables, the ordered
//! sequence of quadratic constraints `A * B = C`, and, when synthesizing in
//! prover mode, the concrete assignment of every allocated variable. One
//! session is created per synthesis pass, populated by the circuit, then
//! closed and handed to the proof backend; allocation or constraint calls on
//! a closed session fail with `AllocatorClosed`.

use vstd::prelude::*;
use crate::field::FieldOps;
use crate::lc::{
    lc_bounded, lc_eval, LinearCombination, Variable, Visibility,
};

verus! {

/// Whether a synthesis pass only fixes the constraint topology (`Setup`) or
/// also records a complete witness assignment (`Prover`).
#[derive(Clone, Copy, PartialEq, Eq, Structural, Debug)]
pub enum Mode {
    Setup,
    Prover,
}

/// The errors this layer itself raises. Backend failures stay with the
/// backend and are never translated into these.
#[derive(Clone, Copy, PartialEq, Eq, Structural, Debug)]
pub enum SynthesisError {
    /// A witness-value provider was asked for a concrete value while none is
    /// known. Expected and swallowed during setup-mode synthesis; fatal in a
    /// prover-mode pass.
    AssignmentMissing,
    /// An allocation or constraint call reached a session already handed to
    /// the backend.
    AllocatorClosed,
}

/// The mathematical content of one linear combination: its ordered
/// `(variable, coefficient residue)` terms and its constant residue.
pub type LcModel = (Seq<(Variable, nat)>, nat);

/// The mathematical content of one constraint `A * B = C`.
pub type ConstraintModel = (LcModel, LcModel, LcModel);

/// The residue value `Some(v)` stands for; `None` stays `None`.
pub open spec fn opt_value<F: FieldOps>(o: Option<F>) -> Option<nat> {
    match o {
        Some(f) => Some(f.value()),
        None => None,
    }
}

/// The assignment residues of a fully assigned vector (an unassigned slot
/// counts as zero; well-formed callers rule that out first).
pub open spec fn some_or_zero(o: Option<nat>) -> nat {
    match o {
        Some(v) => v,
        None => 0,
    }
}

/// True when every slot of `asn` holds a value.
pub open spec fn all_assigned(asn: Seq<Option<nat>>) -> bool {
    forall|i: int| 0 <= i < asn.len() ==> (#[trigger] asn[i]) is Some
}

/// True when every public slot of the session holds a value.
pub open spec fn all_public_assigned(vs: Seq<Visibility>, asn: Seq<Option<nat>>) -> bool {
    forall|i: int|
        0 <= i < vs.len() && vs[i] == Visibility::Public ==> (#[trigger] asn[i]) is Some
}

/// The values of the public variables, in allocation order.
pub open spec fn public_values(vs: Seq<Visibility>, asn: Seq<Option<nat>>) -> Seq<nat>
    decreases vs.len(),
{
    if vs.len() == 0 {
        Seq::empty()
    } else if vs.last() == Visibility::Public {
        public_values(vs.drop_last(), asn).push(some_or_zero(asn[vs.len() - 1]))
    } else {
        public_values(vs.drop_last(), asn)
    }
}

/// True when the assignment `vals` satisfies `A * B = C` in the field of
/// order `m`: the evaluation of `A` times the evaluation of `B`, reduced,
/// equals the evaluation of `C`.
pub open spec fn constraint_holds(cm: ConstraintModel, vals: Seq<nat>, m: nat) -> bool {
    (lc_eval(cm.0.0, cm.0.1, vals, m) * lc_eval(cm.1.0, cm.1.1, vals, m)) % m
        == lc_eval(cm.2.0, cm.2.1, vals, m)
}

/// True when the assignment satisfies every constraint of the system.
pub open spec fn system_satisfied(cms: Seq<ConstraintModel>, vals: Seq<nat>, m: nat) -> bool {
    forall|i: int| 0 <= i < cms.len() ==> constraint_holds(#[trigger] cms[i], vals, m)
}

/// One immutable quadratic constraint `A * B = C` over the session's
/// variables, created by `enforce` and never changed afterwards.
#[derive(Debug)]
pub struct Constraint<F: FieldOps> {
    a: LinearCombination<F>,
    b: LinearCombination<F>,
    c: LinearCombination<F>,
}

impl<F: FieldOps> Constraint<F> {
    /// The mathematical content of the constraint.
    pub closed spec fn model(self) -> ConstraintModel {
        (
            (self.a.terms_model(), self.a.constant_model()),
            (self.b.terms_model(), self.b.constant_model()),
            (self.c.terms_model(), self.c.constant_model()),
        )
    }

    /// Each side merged its duplicates and speaks only of variables below `n`.
    pub closed spec fn wf(self, n: int) -> bool {
        &&& self.a.wf()
        &&& self.b.wf()
        &&& self.c.wf()
        &&& lc_bounded(self.model().0.0, n)
        &&& lc_bounded(self.model().1.0, n)
        &&& lc_bounded(self.model().2.0, n)
    }

    pub fn a(&self) -> (r: &LinearCombination<F>)
        ensures
            r.terms_model() == self.model().0.0,
            r.constant_model() == self.model().0.1,
    {
        &self.a
    }

    pub fn b(&self) -> (r: &LinearCombination<F>)
        ensures
            r.terms_model() == self.model().1.0,
            r.constant_model() == self.model().1.1,
    {
        &self.b
    }

    pub fn c(&self) -> (r: &LinearCombination<F>)
        ensures
            r.terms_model() == self.model().2.0,
            r.constant_model() == self.model().2.1,
    {
        &self.c
    }
}

/// One synthesis session: the allocator, the constraint list and, in prover
/// mode, the witness assignment. Exclusively owned by the synthesis pass
/// that created it and discarded after the backend consumed its content.
pub struct ConstraintSystem<F: FieldOps> {
    mode: Mode,
    sealed: bool,
    vars: Vec<Visibility>,
    assignments: Vec<Option<F>>,
    constraints: Vec<Constraint<F>>,
}

impl<F: FieldOps> ConstraintSystem<F> {
    /// The mode this session was created in.
    pub closed spec fn mode(self) -> Mode {
        self.mode
    }

    /// True once the session was handed to the backend.
    pub closed spec fn is_closed(self) -> bool {
        self.sealed
    }

    /// The visibility tag of every allocated variable, in allocation order.
    pub closed spec fn variables(self) -> Seq<Visibility> {
        self.vars@
    }

    /// The recorded assignment residue of every variable, in allocation
    /// order; `None` where no concrete value is known.
    pub closed spec fn assignments_model(self) -> Seq<Option<nat>> {
        self.assignments@.map_values(|o: Option<F>| opt_value(o))
    }

    /// The mathematical content of every constraint, in registration order.
    pub closed spec fn constraints_model(self) -> Seq<ConstraintModel> {
        self.constraints@.map_values(|c: Constraint<F>| c.model())
    }

    /// One assignment slot per variable; every constraint well formed over
    /// the variables allocated before it.
    pub closed spec fn wf(self) -> bool {
        &&& self.assignments@.len() == self.vars@.len()
        &&& forall|i: int|
            0 <= i < self.constraints@.len()
                ==> (#[trigger] self.constraints@[i]).wf(self.vars@.len() as int)
    }

    /// A session that has not allocated or registered anything yet.
    pub open spec fn is_fresh(self) -> bool {
        &&& !self.is_closed()
        &&& self.variables() == Seq::<Visibility>::empty()
        &&& self.assignments_model() == Seq::<Option<nat>>::empty()
        &&& self.constraints_model() == Seq::<ConstraintModel>::empty()
    }

    /// Open a fresh session for one synthesis pass in the given mode.
    pub fn new(mode: Mode) -> (r: Self)
        ensures
            r.wf(),
            r.is_fresh(),
            r.mode() == mode,
    {
        let r = ConstraintSystem {
            mode,
            sealed: false,
            vars: Vec::new(),
            assignments: Vec::new(),
            constraints: Vec::new(),
        };
        proof {
            assert(r.variables() =~= Seq::<Visibility>::empty());
            assert(r.assignments_model() =~= Seq::<Option<nat>>::empty());
            assert(r.constraints_model() =~= Seq::<ConstraintModel>::empty());
        }
        r
    }

    fn allocate(&mut self, vis: Visibility, value: Option<F>) -> (r: Result<
        Variable,
        SynthesisError,
    >)
        requires
            old(self).wf(),
        ensures
            final(self).wf(),
            final(self).mode() == old(self).mode(),
            final(self).is_closed() == old(self).is_closed(),
            final(self).constraints_model() == old(self).constraints_model(),
            r is Ok <==> (!old(self).is_closed() && (old(self).mode() == Mode::Setup
                || value is Some)),
            r == Result::<Variable, SynthesisError>::Err(SynthesisError::AllocatorClosed)
                <==> old(self).is_closed(),
            r == Result::<Variable, SynthesisError>::Err(SynthesisError::AssignmentMissing)
                <==> (!old(self).is_closed() && old(self).mode() == Mode::Prover
                    && value is None),
            r is Err ==> *final(self) == *old(self),
            r matches Ok(v) ==> {
                &&& v.vis() == vis
                &&& v.idx() == old(self).variables().len()
                &&& final(self).variables() == old(self).variables().push(vis)
                &&& final(self).assignments_model() == old(self).assignments_model().push(
                    if old(self).mode() == Mode::Prover {
                        opt_value(value)
                    } else {
                        None
                    },
                )
            },
    {
        if self.sealed {
            return Err(SynthesisError::AllocatorClosed);
        }
        let stored: Option<F> = match self.mode {
            Mode::Prover => {
                match value {
                    Some(v) => Some(v),
                    None => {
                        return Err(SynthesisError::AssignmentMissing);
                    },
                }
            },
            Mode::Setup => None,
        };
        let index = self.vars.len();
        self.vars.push(vis);
        self.assignments.push(stored);
        proof {
            assert(final(self).assignments_model() =~= old(self).assignments_model().push(
                opt_value(stored),
            ));
            assert(final(self).constraints_model() =~= old(self).constraints_model());
            assert(forall|i: int|
                0 <= i < final(self).constraints_model().len()
                    ==> (#[trigger] final(self).constraints@[i]).wf(old(self).vars@.len() as int));
            assert forall|i: int| 0 <= i < final(self).constraints@.len()
                implies (#[trigger] final(self).constraints@[i]).wf(
                final(self).vars@.len() as int,
            ) by {
                assert(final(self).constraints@[i].wf(old(self).vars@.len() as int));
            }
        }
        Ok(Variable::make(vis, index))
    }

    /// Allocate a private (witness) variable. `value` is the outcome of the
    /// caller's value provider: `Some` when the witness is known, `None` when
    /// it is missing. A missing value is expected, and swallowed, during a
    /// setup-mode pass, which only needs the topology; in prover mode it is
    /// the fatal `AssignmentMissing`. The label is a diagnostic for circuit
    /// authors and is not retained: equal labels still yield distinct
    /// variables.
    pub fn alloc_private(&mut self, _label: &str, value: Option<F>) -> (r: Result<
        Variable,
        SynthesisError,
    >)
        requires
            old(self).wf(),
        ensures
            final(self).wf(),
            final(self).mode() == old(self).mode(),
            final(self).is_closed() == old(self).is_closed(),
            final(self).constraints_model() == old(self).constraints_model(),
            r is Ok <==> (!old(self).is_closed() && (old(self).mode() == Mode::Setup
                || value is Some)),
            r == Result::<Variable, SynthesisError>::Err(SynthesisError::AllocatorClosed)
                <==> old(self).is_closed(),
            r == Result::<Variable, SynthesisError>::Err(SynthesisError::AssignmentMissing)
                <==> (!old(self).is_closed() && old(self).mode() == Mode::Prover
                    && value is None),
            r is Err ==> *final(self) == *old(self),
            r matches Ok(v) ==> {
                &&& v.vis() == Visibility::Private
                &&& v.idx() == old(self).variables().len()
                &&& final(self).variables() == old(self).variables().push(Visibility::Private)
                &&& final(self).assignments_model() == old(self).assignments_model().push(
                    if old(self).mode() == Mode::Prover {
                        opt_value(value)
                    } else {
                        None
                    },
                )
            },
    {
        self.allocate(Visibility::Private, value)
    }

    /// Allocate a public-input variable: as `alloc_private`, but the variable
    /// is tagged `Public` and thereby joins the proof's public-input vector
    /// in allocation order.
    pub fn alloc_input(&mut self, _label: &str, value: Option<F>) -> (r: Result<
        Variable,
        SynthesisError,
    >)
        requires
            old(self).wf(),
        ensures
            final(self).wf(),
            final(self).mode() == old(self).mode(),
            final(self).is_closed() == old(self).is_closed(),
            final(self).constraints_model() == old(self).constraints_model(),
            r is Ok <==> (!old(self).is_closed() && (old(self).mode() == Mode::Setup
                || value is Some)),
            r == Result::<Variable, SynthesisError>::Err(SynthesisError::AllocatorClosed)
                <==> old(self).is_closed(),
            r == Result::<Variable, SynthesisError>::Err(SynthesisError::AssignmentMissing)
                <==> (!old(self).is_closed() && old(self).mode() == Mode::Prover
                    && value is None),
            r is Err ==> *final(self) == *old(self),
            r matches Ok(v) ==> {
                &&& v.vis() == Visibility::Public
                &&& v.idx() == old(self).variables().len()
                &&& final(self).variables() == old(self).variables().push(Visibility::Public)
                &&& final(self).assignments_model() == old(self).assignments_model().push(
                    if old(self).mode() == Mode::Prover {
                        opt_value(value)
                    } else {
                        None
                    },
                )
            },
    {
        self.allocate(Visibility::Public, value)
    }

    /// Append the constraint `a * b = c` to the session. Every variable of
    /// the three combinations must have been allocated earlier in this
    /// session. The label is diagnostic only and is not retained.
    pub fn enforce(
        &mut self,
        _label: &str,
        a: LinearCombination<F>,
        b: LinearCombination<F>,
        c: LinearCombination<F>,
    ) -> (r: Result<(), SynthesisError>)
        requires
            old(self).wf(),
            a.wf(),
            b.wf(),
            c.wf(),
            lc_bounded(a.terms_model(), old(self).variables().len() as int),
            lc_bounded(b.terms_model(), old(self).variables().len() as int),
            lc_bounded(c.terms_model(), old(self).variables().len() as int),
        ensures
            final(self).wf(),
            final(self).mode() == old(self).mode(),
            final(self).is_closed() == old(self).is_closed(),
            final(self).variables() == old(self).variables(),
            final(self).assignments_model() == old(self).assignments_model(),
            r is Ok <==> !old(self).is_closed(),
            r == Result::<(), SynthesisError>::Err(SynthesisError::AllocatorClosed)
                <==> old(self).is_closed(),
            r is Err ==> *final(self) == *old(self),
            r is Ok ==> final(self).constraints_model() == old(self).constraints_model().push(
                (
                    (a.terms_model(), a.constant_model()),
                    (b.terms_model(), b.constant_model()),
                    (c.terms_model(), c.constant_model()),
                ),
            ),
    {
        if self.sealed {
            return Err(SynthesisError::AllocatorClosed);
        }
        let cons = Constraint { a, b, c };
        self.constraints.push(cons);
        proof {
            assert(final(self).constraints_model() =~= old(self).constraints_model().push(
                cons.model(),
            ));
        }
        Ok(())
    }

    /// Seal the session before handing its content to the backend: every
    /// later allocation or constraint call fails with `AllocatorClosed`.
    pub fn close(&mut self)
        requires
            old(self).wf(),
        ensures
            final(self).wf(),
            final(self).is_closed(),
            final(self).mode() == old(self).mode(),
            final(self).variables() == old(self).variables(),
            final(self).assignments_model() == old(self).assignments_model(),
            final(self).constraints_model() == old(self).constraints_model(),
    {
        self.sealed = true;
    }

    /// How many variables the session has allocated.
    pub fn num_variables(&self) -> (r: usize)
        ensures
            r as int == self.variables().len(),
    {
        self.vars.len()
    }

    /// How many constraints the session has registered.
    pub fn num_constraints(&self) -> (r: usize)
        ensures
            r as int == self.constraints_model().len(),
    {
        self.constraints.len()
    }

    /// The visibility tag of the variable allocated at position `i`.
    pub fn variable_visibility(&self, i: usize) -> (r: Visibility)
        requires
            i < self.variables().len(),
        ensures
            r == self.variables()[i as int],
    {
        self.vars[i]
    }

    /// The recorded assignment of the variable allocated at position `i`.
    pub fn assignment(&self, i: usize) -> (r: Option<F>)
        requires
            self.wf(),
            i < self.variables().len(),
        ensures
            opt_value(r) == self.assignments_model()[i as int],
    {
        self.assignments[i]
    }

    /// The constraint registered at position `i`.
    pub fn constraint_at(&self, i: usize) -> (r: &Constraint<F>)
        requires
            self.wf(),
            i < self.constraints_model().len(),
        ensures
            r.model() == self.constraints_model()[i as int],
            r.wf(self.variables().len() as int),
    {
        &self.constraints[i]
    }

    /// Whether the recorded assignment satisfies every registered constraint,
    /// once each assignment is substituted into the combinations. Fails with
    /// `AssignmentMissing` while any variable has no concrete value, as in a
    /// setup-mode session.
    pub fn is_satisfied(&self) -> (r: Result<bool, SynthesisError>)
        requires
            self.wf(),
        ensures
            r is Ok <==> all_assigned(self.assignments_model()),
            r matches Ok(b) ==> b == system_satisfied(
                self.constraints_model(),
                self.assignments_model().map_values(|o: Option<nat>| some_or_zero(o)),
                F::modulus(),
            ),
            r is Err ==> r == Result::<bool, SynthesisError>::Err(
                SynthesisError::AssignmentMissing,
            ),
    {
        let ghost asn = self.assignments_model();
        let ghost vals_spec = asn.map_values(|o: Option<nat>| some_or_zero(o));
        let ghost m = F::modulus();
        let mut vals: Vec<F> = Vec::new();
        let n = self.assignments.len();
        let mut i: usize = 0;
        while i < n
            invariant
                n == self.assignments@.len(),
                i <= n,
                self.wf(),
                asn == self.assignments_model(),
                vals@.len() == i,
                forall|j: int| 0 <= j < i ==> (#[trigger] asn[j]) == Some(vals@[j].value()),
            decreases n - i,
        {
            match self.assignments[i] {
                Some(v) => {
                    vals.push(v);
                },
                None => {
                    proof {
                        assert(asn[i as int] is None);
                    }
                    return Err(SynthesisError::AssignmentMissing);
                },
            }
            i = i + 1;
        }
        proof {
            assert(all_assigned(asn));
            assert(vals@.map_values(|f: F| f.value()) =~= vals_spec);
        }
        let nc = self.constraints.len();
        let mut k: usize = 0;
        while k < nc
            invariant
                nc == self.constraints@.len(),
                k <= nc,
                self.wf(),
                asn == self.assignments_model(),
                all_assigned(asn),
                vals_spec == asn.map_values(|o: Option<nat>| some_or_zero(o)),
                m == F::modulus(),
                vals@.len() == self.vars@.len(),
                vals@.map_values(|f: F| f.value()) == vals_spec,
                forall|j: int|
                    0 <= j < k ==> constraint_holds(
                        #[trigger] self.constraints_model()[j],
                        vals_spec,
                        m,
                    ),
            decreases nc - k,
        {
            let cons = &self.constraints[k];
            proof {
                assert(self.constraints@[k as int].wf(self.vars@.len() as int));
                assert(self.constraints_model()[k as int] == self.constraints@[k as int].model());
            }
            let ea = cons.a().eval(&vals);
            let eb = cons.b().eval(&vals);
            let ec = cons.c().eval(&vals);
            if !ea.mul(eb).equals(&ec) {
                proof {
                    assert(!constraint_holds(self.constraints_model()[k as int], vals_spec, m));
                }
                return Ok(false);
            }
            k = k + 1;
        }
        Ok(true)
    }

    /// The values of the public variables, in allocation order: exactly the
    /// vector the verifier must be shown. Fails with `AssignmentMissing`
    /// while some public variable has no recorded value.
    pub fn public_input_values(&self) -> (r: Result<Vec<F>, SynthesisError>)
        requires
            self.wf(),
        ensures
            r is Ok <==> all_public_assigned(self.variables(), self.assignments_model()),
            r matches Ok(vals) ==> vals@.map_values(|f: F| f.value()) == public_values(
                self.variables(),
                self.assignments_model(),
            ),
            r is Err ==> r == Result::<Vec<F>, SynthesisError>::Err(
                SynthesisError::AssignmentMissing,
            ),
    {
        let ghost vs = self.variables();
        let ghost asn = self.assignments_model();
        let mut out: Vec<F> = Vec::new();
        let n = self.vars.len();
        let mut i: usize = 0;
        proof {
            assert(vs.take(0) =~= Seq::<Visibility>::empty());
        }
        while i < n
            invariant
                n == self.vars@.len(),
                i <= n,
                self.wf(),
                vs == self.variables(),
                asn == self.assignments_model(),
                out@.map_values(|f: F| f.value()) == public_values(vs.take(i as int), asn),
                forall|j: int|
                    0 <= j < i && vs[j] == Visibility::Public ==> (#[trigger] asn[j]) is Some,
            decreases n - i,
        {
            proof {
                assert(vs.take(i as int + 1).drop_last() =~= vs.take(i as int));
                assert(vs.take(i as int + 1).last() == vs[i as int]);
            }
            if matches!(self.vars[i], Visibility::Public) {
                match self.assignments[i] {
                    Some(v) => {
                        out.push(v);
                        proof {
                            assert(out@.map_values(|f: F| f.value()) =~= public_values(
                                vs.take(i as int + 1),
                                asn,
                            ));
                        }
                    },
                    None => {
                        proof {
                            assert(vs[i as int] == Visibility::Public && asn[i as int] is None);
                        }
                        return Err(SynthesisError::AssignmentMissing);
                    },
                }
            }
            i = i + 1;
        }
        proof {
            assert(vs.take(n as int) =~= vs);
        }
        Ok(out)
    }
}

} // verus!
