use bellman::groth16::{
    create_random_proof, generate_random_parameters, prepare_verifying_key, verify_proof, Proof,
};
use bellman::{Circuit, ConstraintSystem, LinearCombination, SynthesisError, Variable};
use pairing::bls12_381::{Bls12, Fr};
use pairing::Field;
use r1cs_xor::backend::xor_output_fr;
use r1cs_xor::demo::{demo_constraint_table, demo_variable_tags};
use r1cs_xor::lc::Visibility;

fn fr_of_i64(k: i64) -> Fr {
    let mut magnitude: Fr = Fr::zero();
    let mut left: i64 = if k < 0 { -k } else { k };
    while left > 0 {
        magnitude.add_assign(&Fr::one());
        left -= 1;
    }
    if k < 0 {
        magnitude.negate();
    }
    magnitude
}

fn replay_side(
    mut lc: LinearCombination<Bls12>,
    side: &[(usize, i64)],
    vars: &[Variable],
) -> LinearCombination<Bls12> {
    for term in side {
        let i: usize = term.0;
        let k: i64 = term.1;
        lc = lc + (fr_of_i64(k), vars[i]);
    }
    lc
}

/// The XOR demonstration circuit for the proof backend, replayed from the
/// topology and witness rule the library fixes.
struct XorReplay {
    a: Option<Fr>,
    b: Option<Fr>,
}

impl Circuit<Bls12> for XorReplay {
    fn synthesize<CS: ConstraintSystem<Bls12>>(self, cs: &mut CS) -> Result<(), SynthesisError> {
        let tags = demo_variable_tags();
        assert_eq!(tags.len(), 3);
        assert_eq!(tags[0], Visibility::Private);
        assert_eq!(tags[1], Visibility::Private);
        assert_eq!(tags[2], Visibility::Public);
        let wa = self.a;
        let wb = self.b;
        let a = cs.alloc(|| "a", || wa.ok_or(SynthesisError::AssignmentMissing))?;
        let b = cs.alloc(|| "b", || wb.ok_or(SynthesisError::AssignmentMissing))?;
        let c = cs.alloc_input(
            || "c",
            || match (wa, wb) {
                (Some(x), Some(y)) => Ok(xor_output_fr(&x, &y)),
                _ => Err(SynthesisError::AssignmentMissing),
            },
        )?;
        let vars = [a, b, c];
        let table = demo_constraint_table();
        for row in &table {
            cs.enforce(
                || "replayed",
                |lc| replay_side(lc, &row.0, &vars),
                |lc| replay_side(lc, &row.1, &vars),
                |lc| replay_side(lc, &row.2, &vars),
            );
        }
        Ok(())
    }
}

#[test]
fn xor_output_fr_truth_table() {
    let zero = Fr::zero();
    let one = Fr::one();
    assert!(xor_output_fr(&zero, &zero).is_zero());
    assert!(!xor_output_fr(&zero, &one).is_zero());
    assert!(!xor_output_fr(&one, &zero).is_zero());
    assert!(xor_output_fr(&one, &one).is_zero());
}

#[test]
fn groth16_end_to_end() {
    let rng = &mut rand::thread_rng();
    let params = {
        let circuit = XorReplay { a: None, b: None };
        generate_random_parameters::<Bls12, _, _>(circuit, rng).unwrap()
    };
    let pvk = prepare_verifying_key(&params.vk);
    let circuit = XorReplay { a: Some(Fr::one()), b: Some(Fr::zero()) };
    let proof = create_random_proof(circuit, &params, rng).unwrap();
    assert!(verify_proof(&pvk, &proof, &[Fr::one()]).unwrap());
    assert!(!verify_proof(&pvk, &proof, &[Fr::zero()]).unwrap());
}

#[test]
fn proof_roundtrip_verifies_identically() {
    let rng = &mut rand::thread_rng();
    let params = {
        let circuit = XorReplay { a: None, b: None };
        generate_random_parameters::<Bls12, _, _>(circuit, rng).unwrap()
    };
    let pvk = prepare_verifying_key(&params.vk);
    let circuit = XorReplay { a: Some(Fr::one()), b: Some(Fr::one()) };
    let proof = create_random_proof(circuit, &params, rng).unwrap();
    let mut proof_data: Vec<u8> = vec![];
    proof.write(&mut proof_data).unwrap();
    let restored = Proof::read(&proof_data[..]).unwrap();
    assert_eq!(
        verify_proof(&pvk, &proof, &[Fr::zero()]).unwrap(),
        verify_proof(&pvk, &restored, &[Fr::zero()]).unwrap()
    );
    assert!(verify_proof(&pvk, &restored, &[Fr::zero()]).unwrap());
    assert!(!verify_proof(&pvk, &restored, &[Fr::one()]).unwrap());
}
