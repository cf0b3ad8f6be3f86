//! The layer's cross-cutting guarantees, stated and proved once.

use vstd::prelude::*;
use vstd::arithmetic::div_mod::{
    lemma_add_mod_noop_right, lemma_mod_multiples_vanish, lemma_mod_self_0, lemma_mod_twice,
    lemma_small_mod,
};
use crate::field::FieldOps;
use crate::lc::{
    distinct_vars, lc_add_term, lc_contains_var, lc_eval, lc_eval_terms, residue_add, residue_neg,
    Variable,
};
use crate::system::{constraint_holds, system_satisfied, ConstraintSystem};
use crate::demo::{demo_constraints, demo_variable, demo_variables, unit_lc, xor_rule};

verus! {

/// Determinism of synthesis: any two successful passes over the
/// demonstration circuit — in particular one setup-mode pass with the
/// witness unknown and one prover-mode pass with it known — produce sessions
/// with the same number of variables, the same visibility tags in the same
/// order and the same constraints in the same order. The hypotheses are
/// exactly what `DemoCircuit::build` ensures of every successful pass,
/// whatever the witness held.
pub proof fn lemma_synthesis_deterministic<F: FieldOps>(
    s1: ConstraintSystem<F>,
    s2: ConstraintSystem<F>,
)
    requires
        s1.variables() == demo_variables(),
        s1.constraints_model() == demo_constraints(F::modulus()),
        s2.variables() == demo_variables(),
        s2.constraints_model() == demo_constraints(F::modulus()),
    ensures
        s1.variables().len() == s2.variables().len(),
        s1.variables() == s2.variables(),
        s1.constraints_model() == s2.constraints_model(),
{
}

/// Merging is additive: merging the same variable twice into a combination
/// equals merging it once with the summed (reduced) coefficient.
pub proof fn lemma_add_term_merges(
    ts: Seq<(Variable, nat)>,
    v: Variable,
    c1: nat,
    c2: nat,
    m: nat,
)
    requires
        distinct_vars(ts),
        m >= 2,
    ensures
        lc_add_term(lc_add_term(ts, v, c1, m), v, c2, m) == lc_add_term(
            ts,
            v,
            residue_add(c1, c2, m),
            m,
        ),
{
    let once = lc_add_term(ts, v, residue_add(c1, c2, m), m);
    let first = lc_add_term(ts, v, c1, m);
    let twice = lc_add_term(first, v, c2, m);
    if lc_contains_var(ts, v) {
        let k = choose|k: int| 0 <= k < ts.len() && #[trigger] ts[k].0 == v;
        assert(first[k].0 == v);
        assert(lc_contains_var(first, v));
        assert forall|j: int| 0 <= j < ts.len() implies twice[j] == once[j] by {
            if ts[j].0 == v {
                lemma_add_mod_noop_right(c2 as int, (ts[j].1 + c1) as int, m as int);
                lemma_add_mod_noop_right(ts[j].1 as int, (c1 + c2) as int, m as int);
                assert(twice[j] == (v, residue_add(residue_add(ts[j].1, c1, m), c2, m)));
            } else {
                assert(first[j] == ts[j]);
            }
        }
        assert(twice =~= once);
    } else {
        assert(first == ts.push((v, c1)));
        assert(first[ts.len() as int].0 == v);
        assert(lc_contains_var(first, v));
        assert forall|j: int| 0 <= j < once.len() implies twice[j] == once[j] by {
            if j < ts.len() {
                assert(!(#[trigger] ts[j].0 == v));
                assert(first[j] == ts[j]);
            } else {
                assert(first[j] == (v, c1));
                lemma_add_mod_noop_right(c2 as int, c1 as int, m as int);
                assert(twice[j] == (v, residue_add(c1, c2, m)));
            }
        }
        assert(twice =~= once);
    }
}

/// In the field of order 251 bundled with this crate, a residue other than
/// 0 and 1 never squares to itself.
pub proof fn lemma_square_not_identity(x: nat)
    requires
        2 <= x < 251,
    ensures
        (x * x) % 251 != x,
{
    let y = x as u16;
    assert((y * y) % 251 != y) by (bit_vector)
        requires
            2 <= y && y < 251,
    ;
    assert(x * x == y * y);
}

/// The value a one-term combination `1 * v` takes under an assignment: the
/// assigned residue itself.
pub proof fn lemma_unit_eval(v: Variable, vals: Seq<nat>, m: nat)
    requires
        m >= 2,
        0 <= v.idx() < vals.len(),
        vals[v.idx()] < m,
    ensures
        lc_eval(unit_lc(v).0, unit_lc(v).1, vals, m) == vals[v.idx()],
{
    let x = vals[v.idx()];
    assert(seq![(v, 1nat)].drop_last() =~= Seq::<(Variable, nat)>::empty());
    assert(lc_eval_terms(Seq::<(Variable, nat)>::empty(), vals, m) == 0);
    assert(lc_eval_terms(seq![(v, 1nat)], vals, m) == (0 + 1 * x) % m);
    lemma_small_mod(x, m);
    assert(lc_eval(unit_lc(v).0, unit_lc(v).1, vals, m) == (x % m + 0) % m);
    lemma_mod_twice(x as int, m as int);
}

/// Booleanity enforcement: the demonstration system's constraint `a*a = a`
/// is satisfied by an assignment exactly when the residue assigned to `a` is
/// 0 or 1. In particular any witness with `a` outside {0, 1} leaves the
/// constraint unsatisfied (stated over the bundled field of order 251).
pub proof fn lemma_booleanity(vals: Seq<nat>)
    requires
        vals.len() >= 1,
        vals[0] < 251,
    ensures
        constraint_holds(demo_constraints(251)[0], vals, 251) <==> (vals[0] == 0 || vals[0]
            == 1),
{
    lemma_square_constraint_at(0, vals);
}

/// The two booleanity constraints of the demonstration system, `a*a = a` at
/// position 0 and `b*b = b` at position 1, each hold exactly when the
/// corresponding assigned residue is 0 or 1.
pub proof fn lemma_square_constraint_at(j: int, vals: Seq<nat>)
    requires
        0 <= j < 2,
        j < vals.len(),
        vals[j] < 251,
    ensures
        constraint_holds(demo_constraints(251)[j], vals, 251) <==> (vals[j] == 0 || vals[j]
            == 1),
{
    let x = vals[j];
    assert(demo_variable(j).idx() == j);
    lemma_unit_eval(demo_variable(j), vals, 251);
    let e = lc_eval(unit_lc(demo_variable(j)).0, unit_lc(demo_variable(j)).1, vals, 251);
    assert(e == x);
    if j == 0 {
        assert(demo_constraints(251)[0] == (
            unit_lc(demo_variable(0)),
            unit_lc(demo_variable(0)),
            unit_lc(demo_variable(0)),
        ));
    } else {
        assert(demo_constraints(251)[1] == (
            unit_lc(demo_variable(1)),
            unit_lc(demo_variable(1)),
            unit_lc(demo_variable(1)),
        ));
    }
    if x == 0 || x == 1 {
        assert((x * x) % 251 == x) by {
            if x == 0 {
                assert((0nat * 0nat) % 251nat == 0nat);
            } else {
                assert((1nat * 1nat) % 251nat == 1nat);
            }
        }
    } else {
        lemma_square_not_identity(x);
    }
}

/// A witness whose `a` is neither 0 nor 1 is rejected as a whole: it leaves
/// the full demonstration system unsatisfied, not just one constraint.
pub proof fn lemma_non_boolean_witness_rejected(vals: Seq<nat>)
    requires
        vals.len() >= 1,
        vals[0] < 251,
        vals[0] != 0,
        vals[0] != 1,
    ensures
        !system_satisfied(demo_constraints(251), vals, 251),
{
    lemma_booleanity(vals);
    assert(!constraint_holds(demo_constraints(251)[0], vals, 251));
}

/// The residue the coefficient `m - 1` contributes per unit of `cv`: it acts
/// as multiplication by minus one.
proof fn lemma_neg_coeff(cv: nat, m: nat)
    requires
        m >= 2,
        cv < m,
    ensures
        ((m - 1) as nat * cv) % m == residue_neg(cv, m),
{
    if cv == 0 {
        assert((m - 1) as nat * 0 == 0);
        lemma_small_mod(0, m);
    } else {
        assert((m - 1) as nat * cv == m * (cv - 1) + (m - cv)) by (nonlinear_arith)
            requires
                m >= 2,
                1 <= cv < m,
        ;
        lemma_mod_multiples_vanish((cv - 1) as int, (m - cv) as int, m as int);
        lemma_small_mod((m - cv) as nat, m);
    }
}

/// What the three sides of the demonstration system's XOR constraint
/// `(2a) * (b) = (a + b - c)` evaluate to under the assignment `(av, bv, cv)`.
proof fn lemma_demo_xor_evals(av: nat, bv: nat, cv: nat, m: nat)
    requires
        m >= 2,
        av < m,
        bv < m,
        cv < m,
    ensures
        lc_eval(demo_constraints(m)[2].0.0, demo_constraints(m)[2].0.1, seq![av, bv, cv], m)
            == ((2nat % m) * av) % m,
        lc_eval(demo_constraints(m)[2].1.0, demo_constraints(m)[2].1.1, seq![av, bv, cv], m)
            == bv,
        lc_eval(demo_constraints(m)[2].2.0, demo_constraints(m)[2].2.1, seq![av, bv, cv], m)
            == ((av + bv) % m + residue_neg(cv, m)) % m,
{
    let vals = seq![av, bv, cv];
    let cm = demo_constraints(m)[2];
    assert(demo_variable(0).idx() == 0 && demo_variable(1).idx() == 1 && demo_variable(2).idx()
        == 2);

    // The A side: one term with coefficient 2 % m.
    let a_ts = seq![(demo_variable(0), 2nat % m)];
    assert(a_ts.drop_last() =~= Seq::<(Variable, nat)>::empty());
    assert(lc_eval_terms(Seq::<(Variable, nat)>::empty(), vals, m) == 0);
    assert(lc_eval_terms(a_ts, vals, m) == (0 + (2nat % m) * av) % m);
    let ea = lc_eval(cm.0.0, cm.0.1, vals, m);
    assert(ea == (lc_eval_terms(a_ts, vals, m) + 0) % m);
    lemma_mod_twice((2nat % m) as int * av as int, m as int);
    assert(ea == ((2nat % m) * av) % m);

    // The B side: the single variable `b`.
    lemma_small_mod(bv, m);
    lemma_unit_eval(demo_variable(1), vals, m);

    // The C side: three unit-coefficient terms, the last carrying `m - 1`.
    let c_ts = seq![
        (demo_variable(0), 1nat),
        (demo_variable(1), 1nat),
        (demo_variable(2), (m - 1) as nat),
    ];
    assert(c_ts.drop_last() =~= seq![(demo_variable(0), 1nat), (demo_variable(1), 1nat)]);
    assert(c_ts.drop_last().drop_last() =~= seq![(demo_variable(0), 1nat)]);
    assert(c_ts.drop_last().drop_last().drop_last() =~= Seq::<(Variable, nat)>::empty());
    let t1 = lc_eval_terms(seq![(demo_variable(0), 1nat)], vals, m);
    assert(t1 == (0 + 1 * av) % m);
    lemma_small_mod(av, m);
    assert(t1 == av);
    let t2 = lc_eval_terms(seq![(demo_variable(0), 1nat), (demo_variable(1), 1nat)], vals, m);
    assert(t2 == (av + 1 * bv) % m);
    let t3 = lc_eval_terms(c_ts, vals, m);
    assert(t3 == (t2 + (m - 1) as nat * cv) % m);
    lemma_neg_coeff(cv, m);
    lemma_add_mod_noop_right(t2 as int, ((m - 1) as nat * cv) as int, m as int);
    assert(t3 == (t2 + residue_neg(cv, m)) % m);
    let ec = lc_eval(cm.2.0, cm.2.1, vals, m);
    assert(ec == (t3 + 0) % m);
    assert(t3 < m);
    lemma_small_mod(t3, m);
    assert(ec == ((av + bv) % m + residue_neg(cv, m)) % m);
}

/// The XOR constraint is exact in every field: for boolean residues `a` and
/// `b` and any residue `c`, the assignment `(a, b, c)` satisfies the
/// demonstration system's constraint `(2a) * (b) = (a + b - c)` precisely
/// when `c` is the XOR of `a` and `b`. Once booleanity is enforced, the one
/// quadratic identity therefore pins the public output down completely.
pub proof fn lemma_xor_constraint_exact(av: nat, bv: nat, cv: nat, m: nat)
    requires
        m >= 2,
        av == 0 || av == 1,
        bv == 0 || bv == 1,
        cv < m,
    ensures
        constraint_holds(demo_constraints(m)[2], seq![av, bv, cv], m) <==> cv == xor_rule(
            av,
            bv,
        ),
{
    let vals = seq![av, bv, cv];
    let cm = demo_constraints(m)[2];
    lemma_demo_xor_evals(av, bv, cv, m);
    let ea = lc_eval(cm.0.0, cm.0.1, vals, m);
    let eb = lc_eval(cm.1.0, cm.1.1, vals, m);
    let ec = lc_eval(cm.2.0, cm.2.1, vals, m);
    let n = residue_neg(cv, m);
    assert(n < m);
    lemma_small_mod(0, m);
    lemma_small_mod(1, m);
    if av == 0 {
        assert((2nat % m) * 0 == 0);
        assert(ea == 0);
        assert(ea * eb == 0);
        assert((ea * eb) % m == 0);
        if bv == 0 {
            assert(ec == (0 + n) % m);
            lemma_small_mod(n, m);
            assert(ec == n);
            assert(ec == 0 <==> cv == 0);
        } else {
            assert(ec == (1 + n) % m);
            if cv == 0 {
                assert(ec == 1);
            } else if cv == 1 {
                assert(ec == (1 + (m - 1)) % (m as int));
                lemma_mod_self_0(m as int);
                assert(ec == 0);
            } else {
                assert(n == (m - cv) as nat);
                assert(2 <= 1 + n < m);
                lemma_small_mod((1 + n) as nat, m);
                assert(ec == 1 + n);
                assert(ec != 0);
            }
        }
    } else {
        lemma_mod_twice(2, m as int);
        assert((2nat % m) * 1 == 2nat % m);
        assert(ea == 2nat % m);
        if bv == 0 {
            assert(ea * 0 == 0);
            assert((ea * eb) % m == 0);
            assert(ec == (1 + n) % m);
            if cv == 0 {
                assert(ec == 1);
            } else if cv == 1 {
                assert(ec == (1 + (m - 1)) % (m as int));
                lemma_mod_self_0(m as int);
                assert(ec == 0);
            } else {
                assert(n == (m - cv) as nat);
                assert(2 <= 1 + n < m);
                lemma_small_mod((1 + n) as nat, m);
                assert(ec == 1 + n);
                assert(ec != 0);
            }
        } else {
            assert(ea * 1 == ea);
            assert((ea * eb) % m == (2nat % m) % m);
            assert((ea * eb) % m == 2nat % m);
            assert(ec == (2nat % m + n) % m);
            if cv == 0 {
                assert(n == 0);
                assert(ec == (2nat % m) % m);
                assert(ec == 2nat % m);
            } else if m == 2 {
                assert(cv == 1 && n == 1);
                lemma_mod_self_0(2);
                assert(2nat % m == 0);
                assert(ec == 1nat % 2nat);
                assert(ec != 2nat % m);
            } else {
                lemma_small_mod(2, m);
                assert(2nat % m == 2);
                if cv == 1 {
                    assert(n == (m - 1) as nat);
                    assert(ec == (2 + (m - 1)) % (m as int));
                    lemma_mod_multiples_vanish(1, 1, m as int);
                    assert(ec == 1nat % m);
                    assert(ec != 2);
                } else if cv == 2 {
                    assert(n == (m - 2) as nat);
                    assert(ec == (2 + (m - 2)) % (m as int));
                    lemma_mod_self_0(m as int);
                    assert(ec == 0);
                    assert(ec != 2);
                } else {
                    assert(n == (m - cv) as nat);
                    assert(3 <= 2 + n < m);
                    lemma_small_mod((2 + n) as nat, m);
                    assert(ec == 2 + n);
                    assert(ec != 2);
                }
            }
        }
    }
}

/// The XOR identity holds in every field: for boolean residues `a` and `b`
/// and the computed output `c = a XOR b`, the assignment `(a, b, c)`
/// satisfies the demonstration system's constraint `(2a) * (b) = (a+b-c)`.
pub proof fn lemma_xor_identity(av: nat, bv: nat, m: nat)
    requires
        m >= 2,
        av == 0 || av == 1,
        bv == 0 || bv == 1,
    ensures
        constraint_holds(demo_constraints(m)[2], seq![av, bv, xor_rule(av, bv)], m),
{
    lemma_xor_constraint_exact(av, bv, xor_rule(av, bv), m);
}

/// The demonstration system as a whole means exactly `c = a XOR b` over
/// boolean inputs: a complete assignment `(a, b, c)` over the bundled field
/// of order 251 satisfies all three constraints precisely when `a` and `b`
/// are boolean and `c` is their XOR.
pub proof fn lemma_demo_system_characterization(vals: Seq<nat>)
    requires
        vals.len() == 3,
        vals[0] < 251,
        vals[1] < 251,
        vals[2] < 251,
    ensures
        system_satisfied(demo_constraints(251), vals, 251) <==> {
            &&& vals[0] == 0 || vals[0] == 1
            &&& vals[1] == 0 || vals[1] == 1
            &&& vals[2] == xor_rule(vals[0], vals[1])
        },
{
    lemma_square_constraint_at(0, vals);
    lemma_square_constraint_at(1, vals);
    assert(seq![vals[0], vals[1], vals[2]] =~= vals);
    if system_satisfied(demo_constraints(251), vals, 251) {
        assert(constraint_holds(demo_constraints(251)[0], vals, 251));
        assert(constraint_holds(demo_constraints(251)[1], vals, 251));
        assert(constraint_holds(demo_constraints(251)[2], vals, 251));
        lemma_xor_constraint_exact(vals[0], vals[1], vals[2], 251);
    } else {
        if (vals[0] == 0 || vals[0] == 1) && (vals[1] == 0 || vals[1] == 1) && vals[2]
            == xor_rule(vals[0], vals[1]) {
            lemma_xor_constraint_exact(vals[0], vals[1], vals[2], 251);
            assert forall|i: int| 0 <= i < 3 implies constraint_holds(
                #[trigger] demo_constraints(251)[i],
                vals,
                251,
            ) by {
            }
            assert(system_satisfied(demo_constraints(251), vals, 251));
        }
    }
}

} // verus!
