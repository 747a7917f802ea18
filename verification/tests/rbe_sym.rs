use rust_rbe::error::RbeError;
use rust_rbe::rbe_sym;
use rust_rbe::utils::g1_generator;

#[test]
fn sym_setup_punctures_and_sizes() {
    let (params, crs) = rbe_sym::setup(128, 100).unwrap();
    assert_eq!(params.N, 100);
    assert_eq!(params.n, 10);
    assert_eq!(params.B, 10);
    assert_eq!(crs.len(), 2 * params.n);
    assert!(crs[params.n].eq_elem(&g1_generator()));
    assert!(!crs[params.n - 1].eq_elem(&g1_generator()));
    assert!(params.g.eq_elem(&g1_generator()));
}

#[test]
fn sym_range_rejection() {
    let (params, crs) = rbe_sym::setup(128, 25).unwrap();
    match rbe_sym::gen(params, crs, 26) {
        Err(e) => assert_eq!(e, RbeError::InvalidIdentity),
        Ok(_) => panic!("identity above capacity must be rejected"),
    }
    let (params, crs) = rbe_sym::setup(128, 25).unwrap();
    match rbe_sym::gen(params, crs, 0) {
        Err(e) => assert_eq!(e, RbeError::InvalidIdentity),
        Ok(_) => panic!("identity zero must be rejected"),
    }
}

#[test]
fn sym_key_consistency() {
    let (params, crs) = rbe_sym::setup(128, 100).unwrap();
    let id = 7;
    let (pk, sk, hv) = rbe_sym::gen(params, crs.clone(), id).unwrap();
    let id_bar = id % params.n;
    assert!(pk.eq_elem(&crs[id_bar].mul_scalar(&sk)));
    assert_eq!(hv.len(), params.n - 1);
    for (j, h) in hv.iter().enumerate() {
        assert!(h.eq_elem(&crs[id_bar + j].mul_scalar(&sk)));
    }
}
