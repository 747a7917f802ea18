use rust_rbe::error::RbeError;
use rust_rbe::group::{pairing, Scalar};
use rust_rbe::utils::{contract_bytes_to_g1, g1_generator, g1_rand, g2_generator, g2_rand};

#[test]
fn bilinearity_through_public_ops() {
    let g1 = g1_generator();
    let g2 = g2_generator();
    let two = Scalar::from_u64(2);
    // e(g1 + g1, g2) == e(g1, 2 * g2): both sides are e(g1, g2)^2
    let lhs = pairing(&g1.add_elem(&g1), &g2);
    let rhs = pairing(&g1, &g2.mul_scalar(&two));
    assert!(lhs.eq_elem(&rhs));
    // and both differ from e(g1, g2) itself
    assert!(!lhs.eq_elem(&pairing(&g1, &g2)));
}

#[test]
fn zero_is_the_identity() {
    let g1 = rust_rbe::group::G1Elem::zero();
    let p = g1_rand();
    assert!(g1.add_elem(&p).eq_elem(&p));
    assert!(!g1.eq_elem(&p));
}

#[test]
fn scalar_from_u64_acts_as_repeated_addition() {
    let g1 = g1_generator();
    let three = Scalar::from_u64(3);
    let sum = g1.add_elem(&g1).add_elem(&g1);
    assert!(g1.mul_scalar(&three).eq_elem(&sum));
}

#[test]
fn serialization_deterministic_and_injective() {
    let a = g1_generator();
    let b = g1_rand();
    assert_eq!(a.into_bytes(), g1_generator().into_bytes());
    assert_ne!(a.into_bytes(), b.into_bytes());
    let c = g2_generator();
    let d = g2_rand();
    assert_eq!(c.into_bytes(), g2_generator().into_bytes());
    assert_ne!(c.into_bytes(), d.into_bytes());
}

#[test]
fn decode_generator_coordinates() {
    // the BN254 G1 generator sits at (1, 2): 32-byte big-endian each
    let mut bytes = vec![0u8; 64];
    bytes[31] = 1;
    bytes[63] = 2;
    let p = contract_bytes_to_g1(&bytes).unwrap();
    assert!(p.eq_elem(&g1_generator()));
}

#[test]
fn decode_rejects_bad_input() {
    match contract_bytes_to_g1(&vec![0u8; 63]) {
        Err(e) => assert_eq!(e, RbeError::MalformedGroupElement),
        Ok(_) => panic!("a short encoding must be rejected"),
    }
    // (0, 0) does not satisfy y^2 = x^3 + 3
    match contract_bytes_to_g1(&vec![0u8; 64]) {
        Err(e) => assert_eq!(e, RbeError::MalformedGroupElement),
        Ok(_) => panic!("an off-curve point must be rejected"),
    }
    match contract_bytes_to_g1(&vec![0xffu8; 64]) {
        Err(e) => assert_eq!(e, RbeError::MalformedGroupElement),
        Ok(_) => panic!("an off-curve point must be rejected"),
    }
}
