//! Variables and linear combinations.
//!
//! A `Variable` is an opaque handle issued by the constraint-system
//! allocator: a monotonically increasing index tagged with its visibility.
//! A `LinearCombination` is an ordered list of `(Variable, coefficient)`
//! pairs plus a constant term, standing for `constant + sum coeff_i * var_i`.
//! Adding a term for a variable that is already present merges the two by
//! summing the coefficients, so a combination never holds two entries for
//! one variable.

use vstd::prelude::*;
use crate::field::FieldOps;

verus! {

/// Whether a variable is part of the hidden witness or of the public-input
/// vector the verifier sees.
#[derive(Clone, Copy, PartialEq, Eq, Structural, Debug)]
pub enum Visibility {
    Private,
    Public,
}

/// A handle for one allocated variable: its position in the session's
/// allocation order, tagged with its visibility. Circuits should treat
/// handles as opaque and only pass them back into combinations; they are
/// compared by identity, and the diagnostic label given at allocation is not
/// part of them.
#[derive(Clone, Copy, PartialEq, Eq, Structural, Debug)]
pub struct Variable {
    pub vis: Visibility,
    pub index: usize,
}

impl Variable {
    /// The position of this variable in the session's allocation order.
    pub open spec fn idx(self) -> int {
        self.index as int
    }

    /// The visibility tag the allocator gave this variable.
    pub open spec fn vis(self) -> Visibility {
        self.vis
    }

    pub(crate) fn make(vis: Visibility, index: usize) -> (r: Variable)
        ensures
            r.vis() == vis,
            r.idx() == index as int,
    {
        Variable { vis, index }
    }

    pub fn index(&self) -> (r: usize)
        ensures
            r as int == self.idx(),
    {
        self.index
    }

    pub fn visibility(&self) -> (r: Visibility)
        ensures
            r == self.vis(),
    {
        self.vis
    }
}

/// True when `ts` holds at most one entry per variable.
pub open spec fn distinct_vars(ts: Seq<(Variable, nat)>) -> bool {
    forall|i: int, j: int| 0 <= i < j < ts.len() ==> ts[i].0 != ts[j].0
}

/// True when some entry of `ts` is for `v`.
pub open spec fn lc_contains_var(ts: Seq<(Variable, nat)>, v: Variable) -> bool {
    exists|i: int| 0 <= i < ts.len() && ts[i].0 == v
}

/// True when every variable of `ts` has an index below `n`.
pub open spec fn lc_bounded(ts: Seq<(Variable, nat)>, n: int) -> bool {
    forall|i: int| 0 <= i < ts.len() ==> 0 <= #[trigger] ts[i].0.idx() < n
}

/// The term list after merging in one `(v, c)` term: an existing entry for
/// `v` has `c` added to its coefficient, otherwise the term is appended.
pub open spec fn lc_add_term(
    ts: Seq<(Variable, nat)>,
    v: Variable,
    c: nat,
    m: nat,
) -> Seq<(Variable, nat)> {
    if lc_contains_var(ts, v) {
        ts.map_values(|t: (Variable, nat)| if t.0 == v { (v, residue_add(t.1, c, m)) } else { t })
    } else {
        ts.push((v, c))
    }
}

/// The sum of two residues, reduced modulo `m`.
pub open spec fn residue_add(x: nat, y: nat, m: nat) -> nat {
    (x + y) % m
}

/// The additive inverse of a residue `x < m`.
pub open spec fn residue_neg(x: nat, m: nat) -> nat {
    if x == 0 { 0nat } else { (m - x) as nat }
}

/// Every coefficient of `ts` negated.
pub open spec fn lc_negate(ts: Seq<(Variable, nat)>, m: nat) -> Seq<(Variable, nat)> {
    ts.map_values(|t: (Variable, nat)| (t.0, residue_neg(t.1, m)))
}

/// The term list after merging every term of `os` into `ts`, left to right.
pub open spec fn lc_add_all(
    ts: Seq<(Variable, nat)>,
    os: Seq<(Variable, nat)>,
    m: nat,
) -> Seq<(Variable, nat)>
    decreases os.len(),
{
    if os.len() == 0 {
        ts
    } else {
        lc_add_term(lc_add_all(ts, os.drop_last(), m), os.last().0, os.last().1, m)
    }
}

/// The value assigned to `v` by the assignment vector `vals` (variables
/// outside the vector count as zero; a well-formed session never asks that).
pub open spec fn var_val(vals: Seq<nat>, v: Variable) -> nat {
    if 0 <= v.idx() < vals.len() { vals[v.idx()] } else { 0 }
}

/// The residue of `sum coeff_i * vals[var_i]`, reduced after every step.
pub open spec fn lc_eval_terms(ts: Seq<(Variable, nat)>, vals: Seq<nat>, m: nat) -> nat
    decreases ts.len(),
{
    if ts.len() == 0 {
        0
    } else {
        (lc_eval_terms(ts.drop_last(), vals, m) + ts.last().1 * var_val(vals, ts.last().0)) % m
    }
}

/// The residue the whole combination takes under `vals`: terms plus constant.
pub open spec fn lc_eval(ts: Seq<(Variable, nat)>, constant: nat, vals: Seq<nat>, m: nat) -> nat {
    (lc_eval_terms(ts, vals, m) + constant) % m
}

/// An affine expression `constant + sum coeff_i * var_i` over the field `F`.
/// Built by value: every operation consumes the combination and returns the
/// extended one, so a constraint can be assembled as a plain expression.
#[derive(Debug)]
pub struct LinearCombination<F: FieldOps> {
    terms: Vec<(Variable, F)>,
    constant: F,
}

impl<F: FieldOps> LinearCombination<F> {
    /// The ordered `(variable, coefficient residue)` pairs of this combination.
    pub closed spec fn terms_model(self) -> Seq<(Variable, nat)> {
        self.terms@.map_values(|t: (Variable, F)| (t.0, t.1.value()))
    }

    /// The residue of the constant term.
    pub closed spec fn constant_model(self) -> nat {
        self.constant.value()
    }

    /// No two entries are for the same variable.
    pub open spec fn wf(self) -> bool {
        distinct_vars(self.terms_model())
    }

    /// The empty combination: the constant zero.
    pub fn new() -> (r: Self)
        ensures
            r.wf(),
            r.terms_model() == Seq::<(Variable, nat)>::empty(),
            r.constant_model() == 0,
    {
        let r = LinearCombination { terms: Vec::new(), constant: F::zero() };
        proof {
            assert(r.terms_model() =~= Seq::<(Variable, nat)>::empty());
        }
        r
    }

    /// Merge the term `coeff * var` in: an entry for `var` that is already
    /// present has `coeff` added to its coefficient, otherwise the term is
    /// appended. Adding the same variable twice therefore equals adding it
    /// once with the summed coefficient.
    pub fn add_term(self, var: Variable, coeff: F) -> (r: Self)
        requires
            self.wf(),
        ensures
            r.wf(),
            r.terms_model() == lc_add_term(self.terms_model(), var, coeff.value(), F::modulus()),
            r.constant_model() == self.constant_model(),
    {
        let ghost ts = self.terms_model();
        let ghost m = F::modulus();
        let ghost cval = coeff.value();
        let mut out: Vec<(Variable, F)> = Vec::new();
        let mut found = false;
        let n = self.terms.len();
        let mut i: usize = 0;
        while i < n
            invariant
                n == self.terms.len(),
                i <= n,
                out@.len() == i,
                self.wf(),
                ts == self.terms_model(),
                m == F::modulus(),
                cval == coeff.value(),
                found == lc_contains_var(ts.take(i as int), var),
                forall|j: int| 0 <= j < i ==> #[trigger] out@[j].0 == ts[j].0,
                forall|j: int| 0 <= j < i ==> #[trigger] out@[j].1.value() == (
                    if ts[j].0 == var { (ts[j].1 + cval) % m } else { ts[j].1 }
                ),
            decreases n - i,
        {
            let (v0, c0) = self.terms[i];
            proof {
                assert(ts[i as int] == (v0, c0.value()));
                assert(ts.take(i as int + 1).drop_last() =~= ts.take(i as int));
                assert(ts.take(i as int + 1).last() == ts[i as int]);
            }
            if v0 == var {
                out.push((var, c0.add(coeff)));
                found = true;
                proof {
                    assert(ts.take(i as int + 1)[i as int].0 == var);
                }
            } else {
                out.push((v0, c0));
                proof {
                    assert(lc_contains_var(ts.take(i as int + 1), var)
                        == lc_contains_var(ts.take(i as int), var)) by {
                        if lc_contains_var(ts.take(i as int + 1), var) {
                            let k = choose|k: int|
                                0 <= k < ts.take(i as int + 1).len()
                                    && #[trigger] ts.take(i as int + 1)[k].0 == var;
                            if k < i {
                                assert(ts.take(i as int)[k].0 == var);
                            }
                        }
                        if lc_contains_var(ts.take(i as int), var) {
                            let k = choose|k: int|
                                0 <= k < ts.take(i as int).len()
                                    && #[trigger] ts.take(i as int)[k].0 == var;
                            assert(ts.take(i as int + 1)[k].0 == var);
                        }
                    }
                }
            }
            i = i + 1;
        }
        proof {
            assert(ts.take(n as int) =~= ts);
        }
        if !found {
            out.push((var, coeff));
        }
        let r = LinearCombination { terms: out, constant: self.constant };
        proof {
            let rm = r.terms_model();
            let expected = lc_add_term(ts, var, cval, m);
            if lc_contains_var(ts, var) {
                assert(rm.len() == expected.len());
                assert forall|j: int| 0 <= j < rm.len() implies rm[j] == expected[j] by {
                    assert(rm[j] == (out@[j].0, out@[j].1.value()));
                    if ts[j].0 == var {
                        assert(expected[j] == (var, residue_add(ts[j].1, cval, m)));
                    } else {
                        assert(expected[j] == ts[j]);
                    }
                }
                assert(rm =~= expected);
            } else {
                assert(rm.len() == expected.len());
                assert forall|j: int| 0 <= j < rm.len() implies rm[j] == expected[j] by {
                    assert(rm[j] == (out@[j].0, out@[j].1.value()));
                    if j < ts.len() {
                        assert(!(ts[j].0 == var));
                        assert(expected[j] == ts[j]);
                    }
                }
                assert(rm =~= expected);
            }
            assert(distinct_vars(r.terms_model())) by {
                if lc_contains_var(ts, var) {
                    assert(forall|j: int| 0 <= j < ts.len()
                        ==> #[trigger] r.terms_model()[j].0 == ts[j].0);
                } else {
                    assert(forall|j: int| 0 <= j < ts.len()
                        ==> #[trigger] r.terms_model()[j].0 == ts[j].0);
                    assert(forall|j: int| 0 <= j < ts.len()
                        ==> #[trigger] ts[j].0 != var);
                }
            }
        }
        r
    }

    /// Merge the variable in with coefficient one.
    pub fn add_variable(self, var: Variable) -> (r: Self)
        requires
            self.wf(),
        ensures
            r.wf(),
            r.terms_model() == lc_add_term(self.terms_model(), var, 1nat, F::modulus()),
            r.constant_model() == self.constant_model(),
    {
        self.add_term(var, F::one())
    }

    /// Merge the variable in with coefficient minus one.
    pub fn sub_variable(self, var: Variable) -> (r: Self)
        requires
            self.wf(),
        ensures
            r.wf(),
            r.terms_model() == lc_add_term(
                self.terms_model(),
                var,
                (F::modulus() - 1) as nat,
                F::modulus(),
            ),
            r.constant_model() == self.constant_model(),
    {
        proof {
            F::lemma_modulus_at_least_two();
        }
        self.add_term(var, F::one().neg())
    }

    /// Add a constant to the combination's constant term.
    pub fn add_constant(self, c: F) -> (r: Self)
        requires
            self.wf(),
        ensures
            r.wf(),
            r.terms_model() == self.terms_model(),
            r.constant_model() == (self.constant_model() + c.value()) % F::modulus(),
    {
        LinearCombination { terms: self.terms, constant: self.constant.add(c) }
    }

    /// The combination standing for the negated expression: every
    /// coefficient and the constant replaced by its additive inverse.
    pub fn negate(self) -> (r: Self)
        requires
            self.wf(),
        ensures
            r.wf(),
            r.terms_model() == lc_negate(self.terms_model(), F::modulus()),
            r.constant_model() == residue_neg(self.constant_model(), F::modulus()),
    {
        let ghost ts = self.terms_model();
        let ghost m = F::modulus();
        let mut out: Vec<(Variable, F)> = Vec::new();
        let n = self.terms.len();
        let mut i: usize = 0;
        while i < n
            invariant
                n == self.terms.len(),
                i <= n,
                out@.len() == i,
                ts == self.terms_model(),
                m == F::modulus(),
                forall|j: int| 0 <= j < i ==> #[trigger] out@[j].0 == ts[j].0,
                forall|j: int| 0 <= j < i
                    ==> #[trigger] out@[j].1.value() == residue_neg(ts[j].1, m),
            decreases n - i,
        {
            let (v0, c0) = self.terms[i];
            proof {
                assert(ts[i as int] == (v0, c0.value()));
                c0.lemma_value_in_range();
            }
            out.push((v0, c0.neg()));
            i = i + 1;
        }
        let r = LinearCombination { terms: out, constant: self.constant.neg() };
        proof {
            self.constant.lemma_value_in_range();
            assert(r.terms_model() =~= lc_negate(ts, m));
            assert(forall|j: int| 0 <= j < ts.len()
                ==> #[trigger] r.terms_model()[j].0 == ts[j].0);
        }
        r
    }

    /// Merge every term of `other` in, left to right, and add the constants:
    /// the combination standing for the sum of the two expressions.
    pub fn add_lc(self, other: Self) -> (r: Self)
        requires
            self.wf(),
            other.wf(),
        ensures
            r.wf(),
            r.terms_model() == lc_add_all(self.terms_model(), other.terms_model(), F::modulus()),
            r.constant_model() == (self.constant_model() + other.constant_model())
                % F::modulus(),
    {
        let ghost os = other.terms_model();
        let ghost m = F::modulus();
        let mut acc = self;
        let n = other.terms.len();
        let mut i: usize = 0;
        while i < n
            invariant
                n == other.terms.len(),
                i <= n,
                acc.wf(),
                os == other.terms_model(),
                m == F::modulus(),
                acc.terms_model() == lc_add_all(self.terms_model(), os.take(i as int), m),
                acc.constant_model() == self.constant_model(),
            decreases n - i,
        {
            let (v0, c0) = other.terms[i];
            proof {
                assert(os[i as int] == (v0, c0.value()));
                assert(os.take(i as int + 1).drop_last() =~= os.take(i as int));
                assert(os.take(i as int + 1).last() == os[i as int]);
            }
            acc = acc.add_term(v0, c0);
            i = i + 1;
        }
        proof {
            assert(os.take(n as int) =~= os);
        }
        acc.add_constant(other.constant)
    }

    /// How many terms the combination holds.
    pub fn num_terms(&self) -> (r: usize)
        ensures
            r as int == self.terms_model().len(),
    {
        self.terms.len()
    }

    /// The term at position `i` in the combination's order.
    pub fn term(&self, i: usize) -> (r: (Variable, F))
        requires
            i < self.terms_model().len(),
        ensures
            r.0 == self.terms_model()[i as int].0,
            r.1.value() == self.terms_model()[i as int].1,
    {
        self.terms[i]
    }

    /// The constant term.
    pub fn constant_part(&self) -> (r: F)
        ensures
            r.value() == self.constant_model(),
    {
        self.constant
    }

    /// The residue the combination takes once `vals` assigns every variable.
    pub fn eval(&self, vals: &Vec<F>) -> (r: F)
        requires
            lc_bounded(self.terms_model(), vals@.len() as int),
        ensures
            r.value() == lc_eval(
                self.terms_model(),
                self.constant_model(),
                vals@.map_values(|f: F| f.value()),
                F::modulus(),
            ),
    {
        let ghost ts = self.terms_model();
        let ghost m = F::modulus();
        let ghost vmodel = vals@.map_values(|f: F| f.value());
        let mut acc = F::zero();
        let n = self.terms.len();
        let mut i: usize = 0;
        proof {
            F::lemma_modulus_at_least_two();
            assert(ts.take(0) =~= Seq::<(Variable, nat)>::empty());
        }
        while i < n
            invariant
                n == self.terms.len(),
                i <= n,
                ts == self.terms_model(),
                m == F::modulus(),
                m >= 2,
                vmodel == vals@.map_values(|f: F| f.value()),
                lc_bounded(ts, vals@.len() as int),
                acc.value() == lc_eval_terms(ts.take(i as int), vmodel, m),
            decreases n - i,
        {
            let (v0, c0) = self.terms[i];
            proof {
                assert(ts[i as int] == (v0, c0.value()));
                assert(0 <= ts[i as int].0.idx() < vals@.len());
            }
            let vi = vals[v0.index()];
            proof {
                assert(ts.take(i as int + 1).drop_last() =~= ts.take(i as int));
                assert(ts.take(i as int + 1).last() == ts[i as int]);
                assert(vmodel[v0.idx()] == vi.value());
                vstd::arithmetic::div_mod::lemma_add_mod_noop_right(
                    acc.value() as int,
                    (c0.value() * vi.value()) as int,
                    m as int,
                );
            }
            acc = acc.add(c0.mul(vi));
            i = i + 1;
        }
        proof {
            assert(ts.take(n as int) =~= ts);
        }
        acc.add(self.constant)
    }
}

} // verus!
