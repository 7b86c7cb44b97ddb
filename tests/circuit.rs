use ark_bls12_381::Fr;
use ark_ff::{BigInt, Field, PrimeField};
use mul_circuit::circuit::{MulCircuit, ProverError};
use mul_circuit::r1cs::{ConstraintSystem, SynthesisError, SynthesisMode, Term, Variable};
use mul_circuit::scalar::Scalar;

fn fr_limbs(f: Fr) -> [u64; 4] {
    f.into_bigint().0
}

fn minus_one() -> Scalar {
    Scalar { limbs: fr_limbs(-Fr::ONE) }
}

#[test]
fn from_u128_splits_into_limbs() {
    let v: u128 = (7u128 << 64) | 9;
    assert_eq!(Scalar::from_u128(v).limbs, [9, 7, 0, 0]);
    assert_eq!(Scalar::from_u128(u128::MAX).limbs, [u64::MAX, u64::MAX, 0, 0]);
    assert_eq!(Scalar::zero().limbs, [0, 0, 0, 0]);
    assert_eq!(Scalar::one().limbs, [1, 0, 0, 0]);
}

#[test]
fn mul_of_fermat_factors() {
    let a = Scalar::from_u128(641);
    let b = Scalar::from_u128(6_700_417);
    assert_eq!(a.mul(&b).limbs, [4_294_967_297, 0, 0, 0]);
}

#[test]
fn mul_reduces_modulo_field_order() {
    let m = minus_one();
    // (-1) * (-1) = 1
    assert_eq!(m.mul(&m).limbs, [1, 0, 0, 0]);
    // (-1) * 2 = -2
    let two = Scalar::from_u128(2);
    assert_eq!(m.mul(&two).limbs, fr_limbs(-Fr::from(2u64)));
}

#[test]
fn mul_agrees_with_field_library() {
    let a = Fr::from(123_456_789_123_456_789u128) * Fr::from(987_654_321u64);
    let b = -Fr::from(31_337u64);
    let sa = Scalar { limbs: fr_limbs(a) };
    let sb = Scalar { limbs: fr_limbs(b) };
    assert_eq!(sa.mul(&sb).limbs, fr_limbs(a * b));
    assert_eq!(sa.add(&sb).limbs, fr_limbs(a + b));
}

#[test]
fn add_wraps_at_field_order() {
    let m = minus_one();
    assert_eq!(m.add(&Scalar::one()).limbs, [0, 0, 0, 0]);
    assert_eq!(Scalar::from_u128(2).add(&Scalar::from_u128(3)).limbs, [5, 0, 0, 0]);
}

#[test]
fn equals_compares_values() {
    assert!(Scalar::from_u128(5).equals(&Scalar::from_u128(5)));
    assert!(!Scalar::from_u128(5).equals(&Scalar::from_u128(6)));
    assert!(!minus_one().equals(&Scalar::one()));
    assert!(Fr::from_bigint(BigInt::new(minus_one().limbs)).is_some());
}

fn fermat_circuit(z: u128) -> MulCircuit {
    MulCircuit::new(Scalar::from_u128(641), Scalar::from_u128(6_700_417), Scalar::from_u128(z))
}

#[test]
fn fermat_product_is_accepted() {
    let a = Scalar::from_u128(641);
    let b = Scalar::from_u128(6_700_417);
    let c = a.mul(&b);
    assert_eq!(MulCircuit::new(a, b, c).check(), Ok(true));
}

#[test]
fn fermat_product_with_any_digit_changed_is_rejected() {
    let digits: Vec<u8> = "4294967297".bytes().collect();
    assert_eq!(fermat_circuit(4_294_967_297).check(), Ok(true));
    let mut tried = 0;
    for pos in 0..digits.len() {
        for d in b'0'..=b'9' {
            if d == digits[pos] {
                continue;
            }
            let mut changed = digits.clone();
            changed[pos] = d;
            let text = String::from_utf8(changed).unwrap();
            let z: u128 = text.parse().unwrap();
            assert_eq!(fermat_circuit(z).check(), Ok(false), "public value {}", text);
            tried += 1;
        }
    }
    assert_eq!(tried, 90);
}

#[test]
fn product_of_wrapping_factors_is_accepted() {
    let m = minus_one();
    assert_eq!(MulCircuit::new(m, m, Scalar::one()).check(), Ok(true));
    assert_eq!(MulCircuit::new(m, m, m).check(), Ok(false));
    assert_eq!(MulCircuit::new(Scalar::zero(), m, Scalar::zero()).check(), Ok(true));
}

#[test]
fn check_without_factors_fails() {
    let shape = MulCircuit::shape(Scalar::one());
    assert_eq!(shape.check(), Err(SynthesisError::AssignmentMissing));
    let half = MulCircuit { x: Some(Scalar::one()), y: None, z: Scalar::one() };
    assert_eq!(half.check(), Err(SynthesisError::AssignmentMissing));
}

#[test]
fn setup_from_assigned_instance_is_refused() {
    let full = fermat_circuit(4_294_967_297);
    assert!(matches!(full.synthesize(SynthesisMode::Setup), Err(SynthesisError::WitnessInSetup)));
    let half = MulCircuit { x: None, y: Some(Scalar::one()), z: Scalar::one() };
    assert!(matches!(half.synthesize(SynthesisMode::Setup), Err(SynthesisError::WitnessInSetup)));
    let mut cs = ConstraintSystem::new(SynthesisMode::Setup);
    assert_eq!(full.generate_constraints(&mut cs), Err(SynthesisError::WitnessInSetup));
    assert_eq!(cs.num_witness, 0);
    assert_eq!(cs.num_instance, 0);
    assert!(cs.constraints.is_empty());
}

fn lc_shape(lc: &[Term]) -> Vec<(Variable, [u64; 4])> {
    lc.iter().map(|t| (t.var, t.coeff.limbs)).collect()
}

#[test]
fn setup_shape_matches_proving_shape() {
    for placeholder in [0u128, 1, 42, 4_294_967_297] {
        let setup = MulCircuit::shape(Scalar::from_u128(placeholder))
            .synthesize(SynthesisMode::Setup)
            .unwrap();
        let prove = fermat_circuit(4_294_967_297).synthesize(SynthesisMode::Prove).unwrap();
        assert_eq!(setup.num_instance, prove.num_instance);
        assert_eq!(setup.num_witness, prove.num_witness);
        assert_eq!(setup.constraints.len(), prove.constraints.len());
        for (k1, k2) in setup.constraints.iter().zip(prove.constraints.iter()) {
            assert_eq!(lc_shape(&k1.a), lc_shape(&k2.a));
            assert_eq!(lc_shape(&k1.b), lc_shape(&k2.b));
            assert_eq!(lc_shape(&k1.c), lc_shape(&k2.c));
        }
        assert!(setup.instance_assignment.is_empty());
        assert!(setup.witness_assignment.is_empty());
        assert_eq!(setup.is_satisfied(), Err(SynthesisError::AssignmentMissing));
    }
}

#[test]
fn proving_system_layout() {
    let cs = fermat_circuit(4_294_967_297).synthesize(SynthesisMode::Prove).unwrap();
    assert_eq!(cs.num_witness, 2);
    assert_eq!(cs.num_instance, 1);
    assert_eq!(cs.constraints.len(), 1);
    let k = &cs.constraints[0];
    assert_eq!(lc_shape(&k.a), vec![(Variable::Witness(0), [1, 0, 0, 0])]);
    assert_eq!(lc_shape(&k.b), vec![(Variable::Witness(1), [1, 0, 0, 0])]);
    assert_eq!(lc_shape(&k.c), vec![(Variable::Instance(0), [1, 0, 0, 0])]);
    assert_eq!(cs.witness_assignment[0].limbs, [641, 0, 0, 0]);
    assert_eq!(cs.witness_assignment[1].limbs, [6_700_417, 0, 0, 0]);
    assert_eq!(cs.instance_assignment[0].limbs, [4_294_967_297, 0, 0, 0]);
}

#[test]
fn wrong_product_still_synthesizes() {
    let cs = fermat_circuit(7).synthesize(SynthesisMode::Prove).unwrap();
    assert_eq!(cs.constraints.len(), 1);
    assert_eq!(cs.is_satisfied(), Ok(false));
}

#[test]
fn missing_witness_leaves_system_untouched() {
    let mut cs = ConstraintSystem::new(SynthesisMode::Prove);
    let shape = MulCircuit::shape(Scalar::one());
    assert_eq!(shape.generate_constraints(&mut cs), Err(SynthesisError::AssignmentMissing));
    assert_eq!(cs.num_witness, 0);
    assert!(cs.constraints.is_empty());
    assert_eq!(cs.new_witness_variable(None), Err(SynthesisError::AssignmentMissing));
}

#[test]
fn linear_combination_value() {
    let mut cs = ConstraintSystem::new(SynthesisMode::Prove);
    let w = cs.new_witness_variable(Some(Scalar::from_u128(10))).unwrap();
    let i = cs.new_input_variable(Scalar::from_u128(3));
    assert_eq!(w, Variable::Witness(0));
    assert_eq!(i, Variable::Instance(0));
    // 2*w + 5*i + 7*1 = 20 + 15 + 7 = 42
    let lc = vec![
        Term { var: w, coeff: Scalar::from_u128(2) },
        Term { var: i, coeff: Scalar::from_u128(5) },
        Term { var: Variable::One, coeff: Scalar::from_u128(7) },
    ];
    assert_eq!(cs.eval_lc(&lc).limbs, [42, 0, 0, 0]);
    // -1 * w + 10 * 1 = 0
    let cancel = vec![
        Term { var: w, coeff: minus_one() },
        Term { var: Variable::One, coeff: Scalar::from_u128(10) },
    ];
    assert_eq!(cs.eval_lc(&cancel).limbs, [0, 0, 0, 0]);
    assert_eq!(cs.eval_lc(&Vec::new()).limbs, [0, 0, 0, 0]);
}

#[test]
fn hand_built_system_is_checked_row_by_row() {
    let mut cs = ConstraintSystem::new(SynthesisMode::Prove);
    let a = cs.new_witness_variable(Some(Scalar::from_u128(3))).unwrap();
    let b = cs.new_input_variable(Scalar::from_u128(9));
    let one = Scalar::one();
    // a * a = b
    cs.enforce_constraint(
        vec![Term { var: a, coeff: one }],
        vec![Term { var: a, coeff: one }],
        vec![Term { var: b, coeff: one }],
    );
    assert_eq!(cs.is_satisfied(), Ok(true));
    // a * 1 = b fails
    cs.enforce_constraint(
        vec![Term { var: a, coeff: one }],
        vec![Term { var: Variable::One, coeff: one }],
        vec![Term { var: b, coeff: one }],
    );
    assert_eq!(cs.is_satisfied(), Ok(false));
}

#[test]
fn proving_system_of_valid_instance() {
    let cs = fermat_circuit(4_294_967_297).proving_system().unwrap();
    assert_eq!(cs.is_satisfied(), Ok(true));
    assert_eq!(cs.instance_assignment[0].limbs, [4_294_967_297, 0, 0, 0]);
}

#[test]
fn proving_system_errors() {
    assert!(matches!(
        MulCircuit::shape(Scalar::one()).proving_system(),
        Err(ProverError::MissingWitness)
    ));
    assert!(matches!(
        fermat_circuit(4_294_967_298).proving_system(),
        Err(ProverError::UnsatisfiableWitness)
    ));
}
