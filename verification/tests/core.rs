use r1cs_xor::demo::{demo_constraint_table, demo_variable_tags, Circuit, DemoCircuit};
use r1cs_xor::field::FieldOps;
use r1cs_xor::fp::Fp;
use r1cs_xor::lc::{LinearCombination, Visibility};
use r1cs_xor::system::{ConstraintSystem, Mode, SynthesisError};

fn fp(n: u64) -> Fp {
    Fp::from_u64(n)
}

#[test]
fn fp_arithmetic() {
    assert_eq!(Fp::zero().repr(), 0);
    assert_eq!(Fp::one().repr(), 1);
    assert!(Fp::zero().is_zero());
    assert!(!Fp::one().is_zero());
    assert_eq!(fp(250).add(fp(2)).repr(), 1);
    assert_eq!(fp(16).mul(fp(16)).repr(), 5);
    assert_eq!(fp(1).neg().repr(), 250);
    assert_eq!(fp(0).neg().repr(), 0);
    assert_eq!(fp(502).repr(), 0);
    assert!(fp(252).equals(&fp(1)));
}

#[test]
fn lc_merges_duplicate_variables() {
    let mut cs = ConstraintSystem::<Fp>::new(Mode::Setup);
    let v = cs.alloc_private("v", None).unwrap();
    let w = cs.alloc_private("w", None).unwrap();
    let twice = LinearCombination::<Fp>::new().add_variable(v).add_variable(v);
    assert_eq!(twice.num_terms(), 1);
    assert_eq!(twice.term(0).0, v);
    assert_eq!(twice.term(0).1.repr(), 2);
    let summed = LinearCombination::<Fp>::new().add_term(v, fp(2));
    assert_eq!(summed.term(0).1.repr(), twice.term(0).1.repr());
    let mixed = LinearCombination::<Fp>::new().add_variable(v).add_variable(w).sub_variable(v);
    assert_eq!(mixed.num_terms(), 2);
    assert_eq!(mixed.term(0).1.repr(), 0);
    assert_eq!(mixed.term(1).1.repr(), 1);
}

#[test]
fn lc_negate_and_combine() {
    let mut cs = ConstraintSystem::<Fp>::new(Mode::Setup);
    let v = cs.alloc_private("v", None).unwrap();
    let w = cs.alloc_private("w", None).unwrap();
    let sum = LinearCombination::<Fp>::new().add_variable(v).add_variable(w).add_constant(fp(7));
    let negated = sum.negate();
    assert_eq!(negated.term(0).1.repr(), 250);
    assert_eq!(negated.term(1).1.repr(), 250);
    assert_eq!(negated.constant_part().repr(), 244);
    let one_v = LinearCombination::<Fp>::new().add_variable(v);
    let combined = negated.add_lc(one_v);
    assert_eq!(combined.num_terms(), 2);
    assert_eq!(combined.term(0).1.repr(), 0);
    assert_eq!(combined.term(1).1.repr(), 250);
    assert_eq!(combined.constant_part().repr(), 244);
}

#[test]
fn lc_eval_substitutes_assignment() {
    let mut cs = ConstraintSystem::<Fp>::new(Mode::Setup);
    let v = cs.alloc_private("v", None).unwrap();
    let w = cs.alloc_private("w", None).unwrap();
    let lc = LinearCombination::<Fp>::new().add_term(v, fp(3)).sub_variable(w).add_constant(
        fp(10),
    );
    let vals: Vec<Fp> = vec![fp(5), fp(4)];
    assert_eq!(lc.eval(&vals).repr(), 21);
}

#[test]
fn allocator_issues_distinct_monotone_handles() {
    let mut cs = ConstraintSystem::<Fp>::new(Mode::Prover);
    let a = cs.alloc_private("x", Some(fp(1))).unwrap();
    let b = cs.alloc_private("x", Some(fp(1))).unwrap();
    let c = cs.alloc_input("x", Some(fp(0))).unwrap();
    assert_ne!(a, b);
    assert_eq!(a.index(), 0);
    assert_eq!(b.index(), 1);
    assert_eq!(c.index(), 2);
    assert_eq!(a.visibility(), Visibility::Private);
    assert_eq!(c.visibility(), Visibility::Public);
    assert_eq!(cs.num_variables(), 3);
    assert_eq!(cs.variable_visibility(2), Visibility::Public);
    assert_eq!(cs.assignment(0).unwrap().repr(), 1);
}

#[test]
fn closed_session_rejects_allocation_and_constraints() {
    let mut cs = ConstraintSystem::<Fp>::new(Mode::Prover);
    let v = cs.alloc_private("v", Some(fp(1))).unwrap();
    cs.close();
    assert_eq!(cs.alloc_private("w", Some(fp(1))), Err(SynthesisError::AllocatorClosed));
    assert_eq!(cs.alloc_input("w", Some(fp(1))), Err(SynthesisError::AllocatorClosed));
    let unit = LinearCombination::<Fp>::new().add_variable(v);
    let unit2 = LinearCombination::<Fp>::new().add_variable(v);
    let unit3 = LinearCombination::<Fp>::new().add_variable(v);
    assert_eq!(cs.enforce("e", unit, unit2, unit3), Err(SynthesisError::AllocatorClosed));
    assert_eq!(cs.num_variables(), 1);
    assert_eq!(cs.num_constraints(), 0);
}

#[test]
fn prover_mode_requires_assignments() {
    let mut cs = ConstraintSystem::<Fp>::new(Mode::Prover);
    assert_eq!(cs.alloc_private("v", None), Err(SynthesisError::AssignmentMissing));
    assert_eq!(cs.num_variables(), 0);
    let mut cs2 = ConstraintSystem::<Fp>::new(Mode::Prover);
    let circuit = DemoCircuit::<Fp> { a: Some(fp(1)), b: None };
    assert_eq!(circuit.build(&mut cs2), Err(SynthesisError::AssignmentMissing));
}

#[test]
fn setup_mode_absorbs_missing_assignment() {
    let mut cs = ConstraintSystem::<Fp>::new(Mode::Setup);
    let v = cs.alloc_input("c", None).unwrap();
    assert_eq!(v.index(), 0);
    assert!(cs.assignment(0).is_none());
    let mut session = ConstraintSystem::<Fp>::new(Mode::Setup);
    let circuit = DemoCircuit::<Fp> { a: None, b: None };
    assert_eq!(circuit.build(&mut session), Ok(()));
    assert_eq!(session.num_variables(), 3);
    assert_eq!(session.num_constraints(), 3);
    assert!(matches!(
        session.public_input_values(),
        Err(SynthesisError::AssignmentMissing)
    ));
}

fn lc_shape(lc: &LinearCombination<Fp>) -> Vec<(usize, Visibility, u8)> {
    let mut out: Vec<(usize, Visibility, u8)> = Vec::new();
    let mut i: usize = 0;
    while i < lc.num_terms() {
        let (v, coeff) = lc.term(i);
        out.push((v.index(), v.visibility(), coeff.repr()));
        i += 1;
    }
    out
}

fn session_shape(
    cs: &ConstraintSystem<Fp>,
) -> (Vec<Visibility>, Vec<[Vec<(usize, Visibility, u8)>; 3]>) {
    let mut tags: Vec<Visibility> = Vec::new();
    let mut i: usize = 0;
    while i < cs.num_variables() {
        tags.push(cs.variable_visibility(i));
        i += 1;
    }
    let mut constraints: Vec<[Vec<(usize, Visibility, u8)>; 3]> = Vec::new();
    let mut k: usize = 0;
    while k < cs.num_constraints() {
        let cons = cs.constraint_at(k);
        constraints.push([lc_shape(cons.a()), lc_shape(cons.b()), lc_shape(cons.c())]);
        k += 1;
    }
    (tags, constraints)
}

#[test]
fn synthesis_is_deterministic_across_modes() {
    let mut setup = ConstraintSystem::<Fp>::new(Mode::Setup);
    DemoCircuit::<Fp> { a: None, b: None }.build(&mut setup).unwrap();
    let mut prover = ConstraintSystem::<Fp>::new(Mode::Prover);
    DemoCircuit::<Fp> { a: Some(fp(1)), b: Some(fp(0)) }.build(&mut prover).unwrap();
    assert_eq!(setup.num_variables(), prover.num_variables());
    assert_eq!(setup.num_constraints(), prover.num_constraints());
    assert_eq!(session_shape(&setup), session_shape(&prover));
}

#[test]
fn demo_topology_matches_expectation() {
    let mut cs = ConstraintSystem::<Fp>::new(Mode::Setup);
    DemoCircuit::<Fp> { a: None, b: None }.build(&mut cs).unwrap();
    let (tags, constraints) = session_shape(&cs);
    assert_eq!(tags, vec![Visibility::Private, Visibility::Private, Visibility::Public]);
    let pri = Visibility::Private;
    let pub_ = Visibility::Public;
    let unit_a = vec![(0usize, pri, 1u8)];
    let unit_b = vec![(1usize, pri, 1u8)];
    assert_eq!(constraints[0], [unit_a.clone(), unit_a.clone(), unit_a.clone()]);
    assert_eq!(constraints[1], [unit_b.clone(), unit_b.clone(), unit_b.clone()]);
    assert_eq!(
        constraints[2],
        [
            vec![(0usize, pri, 2u8)],
            unit_b.clone(),
            vec![(0usize, pri, 1u8), (1usize, pri, 1u8), (2usize, pub_, 250u8)],
        ]
    );
}

#[test]
fn xor_truth_table() {
    let cases: Vec<(u64, u64, u8)> = vec![(0, 0, 0), (0, 1, 1), (1, 0, 1), (1, 1, 0)];
    for case in &cases {
        let (a, b, c): (u64, u64, u8) = *case;
        let mut cs = ConstraintSystem::<Fp>::new(Mode::Prover);
        DemoCircuit::<Fp> { a: Some(fp(a)), b: Some(fp(b)) }.build(&mut cs).unwrap();
        assert_eq!(cs.assignment(2).unwrap().repr(), c);
        assert_eq!(cs.is_satisfied(), Ok(true));
        let publics = cs.public_input_values().unwrap();
        assert_eq!(publics.len(), 1);
        assert_eq!(publics[0].repr(), c);
    }
}

#[test]
fn non_boolean_witness_violates_booleanity() {
    let mut cs = ConstraintSystem::<Fp>::new(Mode::Prover);
    DemoCircuit::<Fp> { a: Some(fp(2)), b: Some(fp(0)) }.build(&mut cs).unwrap();
    assert_eq!(cs.is_satisfied(), Ok(false));
    let mut cs2 = ConstraintSystem::<Fp>::new(Mode::Prover);
    DemoCircuit::<Fp> { a: Some(fp(250)), b: Some(fp(1)) }.build(&mut cs2).unwrap();
    assert_eq!(cs2.is_satisfied(), Ok(false));
}

#[test]
fn satisfaction_needs_full_assignment() {
    let mut cs = ConstraintSystem::<Fp>::new(Mode::Setup);
    DemoCircuit::<Fp> { a: None, b: None }.build(&mut cs).unwrap();
    assert_eq!(cs.is_satisfied(), Err(SynthesisError::AssignmentMissing));
}

#[test]
fn circuit_trait_synthesizes_like_build() {
    let mut cs = ConstraintSystem::<Fp>::new(Mode::Prover);
    let circuit = DemoCircuit::<Fp> { a: Some(fp(1)), b: Some(fp(1)) };
    Circuit::<Fp>::synthesize(circuit, &mut cs).unwrap();
    assert_eq!(cs.num_variables(), 3);
    assert_eq!(cs.num_constraints(), 3);
    assert_eq!(cs.assignment(2).unwrap().repr(), 0);
}

#[test]
fn replay_table_matches_topology() {
    let tags = demo_variable_tags();
    assert_eq!(tags, vec![Visibility::Private, Visibility::Private, Visibility::Public]);
    let table = demo_constraint_table();
    assert_eq!(table.len(), 3);
    assert_eq!(table[0].0, vec![(0usize, 1i64)]);
    assert_eq!(table[0].1, vec![(0usize, 1i64)]);
    assert_eq!(table[0].2, vec![(0usize, 1i64)]);
    assert_eq!(table[1].0, vec![(1usize, 1i64)]);
    assert_eq!(table[2].0, vec![(0usize, 2i64)]);
    assert_eq!(table[2].1, vec![(1usize, 1i64)]);
    assert_eq!(table[2].2, vec![(0usize, 1i64), (1usize, 1i64), (2usize, -1i64)]);
}

#[test]
fn wrong_public_output_unsatisfies_system() {
    let mut cs = ConstraintSystem::<Fp>::new(Mode::Prover);
    let a = cs.alloc_private("a", Some(fp(1))).unwrap();
    let b = cs.alloc_private("b", Some(fp(0))).unwrap();
    let c = cs.alloc_input("c", Some(fp(0))).unwrap();
    cs.enforce(
        "a is boolean",
        LinearCombination::<Fp>::new().add_variable(a),
        LinearCombination::<Fp>::new().add_variable(a),
        LinearCombination::<Fp>::new().add_variable(a),
    )
    .unwrap();
    cs.enforce(
        "b is boolean",
        LinearCombination::<Fp>::new().add_variable(b),
        LinearCombination::<Fp>::new().add_variable(b),
        LinearCombination::<Fp>::new().add_variable(b),
    )
    .unwrap();
    cs.enforce(
        "a xor b = c",
        LinearCombination::<Fp>::new().add_variable(a).add_variable(a),
        LinearCombination::<Fp>::new().add_variable(b),
        LinearCombination::<Fp>::new().add_variable(a).add_variable(b).sub_variable(c),
    )
    .unwrap();
    assert_eq!(cs.is_satisfied(), Ok(false));
}
