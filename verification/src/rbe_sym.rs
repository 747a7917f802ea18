//! The symmetric-pairing variant: a reduced mode for settings with a
//! single source group. Setup and key generation mirror the asymmetric
//! scheme with one CRS vector, under the same zero-based bucket
//! convention. The encryption and decryption of this mode are not part
//! of the scheme's settled algebra and are left out rather than guessed.

use vstd::prelude::*;

use crate::arith::{
    is_residue, lemma_double_below_square, lemma_mulmod_noop, lemma_powmod_unfold,
    lemma_residue_mod, mulmod, powmod,
};
use crate::error::RbeError;
use crate::group::{
    g1_generator_point, g1_mul, g1_sanity_check, scalar_mul, scalar_rand,
};
use crate::group::{G1Elem, GtElem, Scalar};
use crate::rbe_asym::isqrt;

verus! {

/// The public parameters of a symmetric-mode deployment.
#[allow(non_snake_case)]
#[derive(Clone, Copy)]
pub struct Params {
    /// The number of identities the deployment can register.
    pub N: usize,
    /// The bucket count: the integer square root of the capacity.
    pub n: usize,
    /// The bucket size: `N / n`, rounded down.
    pub B: usize,
    /// The group generator, kept with the parameters.
    pub g: G1Elem,
}

impl Params {
    /// The fields are consistent: `n` is the integer square root of the
    /// capacity, `B` its quotient by `n`, and `g` the bare generator.
    pub open spec fn wf(&self) -> bool {
        &&& 1 <= self.n
        &&& self.n * self.n <= self.N
        &&& self.N < (self.n + 1) * (self.n + 1)
        &&& self.B == self.N as int / self.n as int
        &&& self.g.wf()
        &&& self.g.dlog@ == 1
    }
}

/// A symmetric-mode ciphertext: all group components in the one group.
#[derive(Clone, Copy)]
pub struct CText(pub G1Elem, pub GtElem, pub G1Elem, pub GtElem);

/// The single CRS vector holds `2n` well-formed entries.
pub open spec fn crs_wf(crs: Seq<G1Elem>, n: int) -> bool {
    &&& crs.len() == 2 * n
    &&& forall|i: int| 0 <= i < 2 * n ==> (#[trigger] crs[i]).wf()
}

/// Entry `i` is the `(i+1)`-th power of `tau`, except at the punctured
/// index `n`, which holds the bare generator.
pub open spec fn crs_is_powers_of(crs: Seq<G1Elem>, n: int, tau: int) -> bool {
    &&& forall|i: int|
        0 <= i < 2 * n && i != n ==> (#[trigger] crs[i]).dlog@ == powmod(tau, (i + 1) as nat)
    &&& crs[n].dlog@ == 1
}

/// Generates the punctured powers-of-tau reference string in the single
/// group, with the derived parameters. As in the asymmetric scheme, the
/// trapdoor is local and dropped on return, entry `n` is the bare
/// generator, and every computed point passes the defensive checks,
/// whose contracts rule the `MalformedGroupElement` outcome out. The
/// security parameter does not enter the computation: the curve is
/// fixed.
pub fn setup(secparam: usize, capacity: usize) -> (res: Result<(Params, Vec<G1Elem>), RbeError>)
    requires
        1 <= capacity,
    ensures
        res matches Ok(pc) && pc.0.N == capacity && pc.0.wf() && crs_wf(pc.1@, pc.0.n as int)
            && pc.1@[pc.0.n as int].dlog@ == 1
            && exists|tau: int| is_residue(tau) && crs_is_powers_of(pc.1@, pc.0.n as int, tau),
{
    let n = isqrt(capacity);
    proof {
        assert(n >= 1) by (nonlinear_arith)
            requires
                capacity < (n + 1) * (n + 1),
                1 <= capacity,
                n >= 0,
        ;
        lemma_double_below_square(n as int, capacity as int, usize::MAX as int);
    }
    let bucket_size = capacity / n;
    let tau = scalar_rand();
    let mut power = tau;
    proof {
        lemma_residue_mod(tau.v@);
        lemma_mulmod_noop(tau.v@, 1);
        lemma_powmod_unfold(tau.v@, 0);
        assert(mulmod(tau.v@, 1) == tau.v@);
    }
    let g = g1_generator_point();
    let mut crs: Vec<G1Elem> = Vec::new();
    let mut i: usize = 0;
    while i < 2 * n
        invariant
            1 <= n,
            2 * n <= usize::MAX,
            i <= 2 * n,
            tau.wf(),
            power.wf(),
            g.wf(),
            g.dlog@ == 1,
            crs@.len() == i,
            power.v@ == powmod(tau.v@, (i + 1) as nat),
            forall|j: int| 0 <= j < i ==> (#[trigger] crs@[j]).wf(),
            forall|j: int|
                0 <= j < i && j != n ==> (#[trigger] crs@[j]).dlog@ == powmod(
                    tau.v@,
                    (j + 1) as nat,
                ),
            i > n ==> crs@[n as int].dlog@ == 1,
        decreases 2 * n - i,
    {
        if i == n {
            // the (n+1)-th power is punctured out
            crs.push(g);
        } else {
            let e = g1_mul(&g, &power);
            proof {
                lemma_mulmod_noop(1, power.v@);
                lemma_residue_mod(power.v@);
                assert(mulmod(1, power.v@) == power.v@);
            }
            let ok = g1_sanity_check(&e);
            if !ok {
                return Err(RbeError::MalformedGroupElement);
            }
            crs.push(e);
        }
        power = scalar_mul(&power, &tau);
        proof {
            lemma_powmod_unfold(tau.v@, (i + 1) as nat);
        }
        i = i + 1;
    }
    let params = Params { N: capacity, n, B: bucket_size, g };
    proof {
        assert(crs_is_powers_of(crs@, n as int, tau.v@));
    }
    Ok((params, crs))
}

/// Derives the keypair and helper values of one identity in the
/// symmetric mode, exactly as the asymmetric scheme does over its first
/// CRS vector: rejection outside `[1, N]`, the public key as the
/// identity's CRS entry taken `sk` times, and a window of `n - 1`
/// helper values.
pub fn gen(params: Params, crs: Vec<G1Elem>, id: usize) -> (res: Result<
    (G1Elem, Scalar, Vec<G1Elem>),
    RbeError,
>)
    requires
        params.wf(),
        crs_wf(crs@, params.n as int),
    ensures
        res matches Err(e) ==> e == RbeError::InvalidIdentity && (id < 1 || id > params.N),
        id < 1 || id > params.N ==> res matches Err(RbeError::InvalidIdentity),
        res matches Ok(out) ==> {
            &&& 1 <= id <= params.N
            &&& out.1.wf()
            &&& out.0.wf()
            &&& out.0.dlog@ == mulmod(crs@[(id % params.n) as int].dlog@, out.1.v@)
            &&& out.2@.len() == params.n - 1
            &&& forall|j: int| 0 <= j < params.n - 1 ==> (#[trigger] out.2@[j]).wf()
            &&& forall|j: int|
                0 <= j < params.n - 1 ==> (#[trigger] out.2@[j]).dlog@ == mulmod(
                    crs@[id % params.n + j].dlog@,
                    out.1.v@,
                )
        },
{
    if id < 1 || id > params.N {
        return Err(RbeError::InvalidIdentity);
    }
    let id_bar = id % params.n;
    proof {
        lemma_double_below_square(params.n as int, params.N as int, usize::MAX as int);
    }
    let sk = scalar_rand();
    let pk = g1_mul(&crs[id_bar], &sk);
    let mut hv: Vec<G1Elem> = Vec::new();
    let mut j: usize = 0;
    while j < params.n - 1
        invariant
            params.wf(),
            crs_wf(crs@, params.n as int),
            sk.wf(),
            id_bar == id % params.n,
            id_bar < params.n,
            2 * params.n <= usize::MAX,
            j <= params.n - 1,
            hv@.len() == j,
            forall|k: int| 0 <= k < j ==> (#[trigger] hv@[k]).wf(),
            forall|k: int|
                0 <= k < j ==> (#[trigger] hv@[k]).dlog@ == mulmod(
                    crs@[id_bar + k].dlog@,
                    sk.v@,
                ),
        decreases params.n - 1 - j,
    {
        let e = g1_mul(&crs[id_bar + j], &sk);
        hv.push(e);
        j = j + 1;
    }
    Ok((pk, sk, hv))
}

} // verus!
