use rust_rbe::error::RbeError;
use rust_rbe::group::{pairing, G1Elem, Scalar};
use rust_rbe::rbe_asym;
use rust_rbe::utils::{g1_generator, g1_rand, g2_generator, g2_rand};

#[test]
fn test_simple_enc_dec() {
    // setup
    let capacity = 100;
    let id = 3;
    let (params, crs) = rbe_asym::setup(capacity).unwrap();
    let mut pp: Vec<G1Elem> = vec![G1Elem::zero(); params.n];
    let id_bar = id % params.n;

    // keygen
    let (pk, sk, _a) = rbe_asym::gen(params, &crs, id).unwrap();
    assert!(pk.eq_elem(&crs.crs1[id_bar].mul_scalar(&sk)));

    // simulate registration
    let k = id / params.n;
    rbe_asym::register_pk(&mut pp, k, &pk);

    // enc
    let m = pairing(&g1_rand(), &g2_rand());
    let ct = rbe_asym::enc(params, &crs, pp, id, m);
    // dec
    let m_prime = rbe_asym::dec(params, &crs, id, sk, vec![G1Elem::zero()], ct).unwrap();
    assert!(m.eq_elem(&m_prime));
}

#[test]
fn concrete_bucket_arithmetic() {
    let (params, _crs) = rbe_asym::setup(100).unwrap();
    assert_eq!(params.capacity, 100);
    assert_eq!(params.n, 10);
    assert_eq!(params.num_blocks, 10);
    let id = 3;
    assert_eq!(id % params.n, 3);
    assert_eq!(id / params.n, 0);
}

#[test]
fn isqrt_exact_values() {
    assert_eq!(rbe_asym::isqrt(0), 0);
    assert_eq!(rbe_asym::isqrt(1), 1);
    assert_eq!(rbe_asym::isqrt(3), 1);
    assert_eq!(rbe_asym::isqrt(4), 2);
    assert_eq!(rbe_asym::isqrt(99), 9);
    assert_eq!(rbe_asym::isqrt(100), 10);
    assert_eq!(rbe_asym::isqrt(101), 10);
}

#[test]
fn puncture_invariant() {
    for capacity in [4, 10, 100, 1000] {
        let (params, crs) = rbe_asym::setup(capacity).unwrap();
        assert_eq!(crs.crs1.len(), 2 * params.n);
        assert_eq!(crs.crs2.len(), 2 * params.n);
        assert!(crs.crs1[params.n].eq_elem(&g1_generator()));
        assert!(crs.crs2[params.n].eq_elem(&g2_generator()));
        // the neighbouring entries are computed powers, not the generator
        assert!(!crs.crs1[params.n - 1].eq_elem(&g1_generator()));
        assert!(!crs.crs1[params.n + 1].eq_elem(&g1_generator()));
    }
}

#[test]
fn range_rejection() {
    for capacity in [1, 4, 100] {
        let (params, crs) = rbe_asym::setup(capacity).unwrap();
        match rbe_asym::gen(params, &crs, 0) {
            Err(e) => assert_eq!(e, RbeError::InvalidIdentity),
            Ok(_) => panic!("identity zero must be rejected"),
        }
        match rbe_asym::gen(params, &crs, capacity + 1) {
            Err(e) => assert_eq!(e, RbeError::InvalidIdentity),
            Ok(_) => panic!("identity above capacity must be rejected"),
        }
        assert!(rbe_asym::gen(params, &crs, 1).is_ok());
        assert!(rbe_asym::gen(params, &crs, capacity).is_ok());
    }
}

#[test]
fn key_consistency() {
    let (params, crs) = rbe_asym::setup(100).unwrap();
    for id in [1, 3, 10, 57, 100] {
        let (pk, sk, hv) = rbe_asym::gen(params, &crs, id).unwrap();
        let id_bar = id % params.n;
        assert!(pk.eq_elem(&crs.crs1[id_bar].mul_scalar(&sk)));
        assert_eq!(hv.len(), params.n - 1);
        for (j, h) in hv.iter().enumerate() {
            assert!(h.eq_elem(&crs.crs1[id_bar + j].mul_scalar(&sk)));
        }
    }
}

#[test]
fn pending_decryption() {
    let (params, crs) = rbe_asym::setup(100).unwrap();
    let id = 7;
    let (pk, sk, _hv) = rbe_asym::gen(params, &crs, id).unwrap();
    let mut pp: Vec<G1Elem> = vec![G1Elem::zero(); params.n];
    rbe_asym::register_pk(&mut pp, id / params.n, &pk);
    let m = pairing(&g1_rand(), &g2_rand());
    let ct = rbe_asym::enc(params, &crs, pp, id, m);
    // no auxiliary element satisfies the pairing equation
    let aux = vec![g1_rand(), g1_rand(), g1_rand()];
    match rbe_asym::dec(params, &crs, id, sk, aux, ct) {
        Err(e) => assert_eq!(e, RbeError::DecryptionPending),
        Ok(_) => panic!("an unrelated aux sequence must not decrypt"),
    }
    // the empty sequence pends as well
    match rbe_asym::dec(params, &crs, id, sk, Vec::new(), ct) {
        Err(e) => assert_eq!(e, RbeError::DecryptionPending),
        Ok(_) => panic!("an empty aux sequence must not decrypt"),
    }
}

#[test]
fn negative_scenario_unrelated_aux() {
    // with two registered keys in the slot, the zero element no longer
    // satisfies the matching equation, and unrelated elements never do
    let (params, crs) = rbe_asym::setup(100).unwrap();
    let (pk_a, sk_a, _hv_a) = rbe_asym::gen(params, &crs, 3).unwrap();
    let (pk_b, _sk_b, _hv_b) = rbe_asym::gen(params, &crs, 5).unwrap();
    let mut pp: Vec<G1Elem> = vec![G1Elem::zero(); params.n];
    rbe_asym::register_pk(&mut pp, 0, &pk_a);
    rbe_asym::register_pk(&mut pp, 0, &pk_b);
    let m = pairing(&g1_rand(), &g2_rand());
    let ct = rbe_asym::enc(params, &crs, pp, 3, m);
    let aux = vec![G1Elem::zero(), g1_rand(), g1_rand()];
    match rbe_asym::dec(params, &crs, 3, sk_a, aux, ct) {
        Err(e) => assert_eq!(e, RbeError::DecryptionPending),
        Ok(wrong) => {
            assert!(!wrong.eq_elem(&m));
            panic!("zero and unrelated elements must not decrypt here");
        }
    }
}

#[test]
fn two_party_roundtrip() {
    // identities 3 and 5 share slot 0; party 5's helper value at the
    // offset facing party 3 is exactly the element party 3 needs
    let (params, crs) = rbe_asym::setup(100).unwrap();
    let (pk_a, sk_a, _hv_a) = rbe_asym::gen(params, &crs, 3).unwrap();
    let (pk_b, _sk_b, hv_b) = rbe_asym::gen(params, &crs, 5).unwrap();
    let mut pp: Vec<G1Elem> = vec![G1Elem::zero(); params.n];
    rbe_asym::register_pk(&mut pp, 0, &pk_a);
    rbe_asym::register_pk(&mut pp, 0, &pk_b);
    let m = pairing(&g1_rand(), &g2_rand());
    let ct = rbe_asym::enc(params, &crs, pp, 3, m);
    // helper j of party 5 lifts crs1[5 + j]; the one facing party 3 is
    // crs1[13], whose tau-power 14 is party 5's key power 6 plus the
    // power 8 of crs2[10 - 3]
    let aux = vec![hv_b[8]];
    let m_prime = rbe_asym::dec(params, &crs, 3, sk_a, aux, ct).unwrap();
    assert!(m.eq_elem(&m_prime));
}

#[test]
fn capacity_one_roundtrip() {
    // the smallest deployment: one bucket, an empty helper window, and
    // the single identity landing in slot one
    let (params, crs) = rbe_asym::setup(1).unwrap();
    assert_eq!(params.n, 1);
    assert_eq!(params.num_blocks, 1);
    let (pk, sk, hv) = rbe_asym::gen(params, &crs, 1).unwrap();
    assert_eq!(hv.len(), 0);
    let mut pp: Vec<G1Elem> = vec![G1Elem::zero(); 2];
    rbe_asym::register_pk(&mut pp, 1, &pk);
    let m = pairing(&g1_rand(), &g2_rand());
    let ct = rbe_asym::enc(params, &crs, pp, 1, m);
    let m_prime = rbe_asym::dec(params, &crs, 1, sk, vec![G1Elem::zero()], ct).unwrap();
    assert!(m.eq_elem(&m_prime));
}

#[test]
fn invalid_key_zero_sk() {
    let (params, crs) = rbe_asym::setup(100).unwrap();
    let id = 3;
    let sk = Scalar::from_u64(0);
    let pk = crs.crs1[id % params.n].mul_scalar(&sk);
    let mut pp: Vec<G1Elem> = vec![G1Elem::zero(); params.n];
    rbe_asym::register_pk(&mut pp, id / params.n, &pk);
    let m = pairing(&g1_rand(), &g2_rand());
    let ct = rbe_asym::enc(params, &crs, pp, id, m);
    match rbe_asym::dec(params, &crs, id, sk, vec![G1Elem::zero()], ct) {
        Err(e) => assert_eq!(e, RbeError::InvalidKey),
        Ok(_) => panic!("a zero secret key is not invertible"),
    }
}
