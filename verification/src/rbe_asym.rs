//! The asymmetric-pairing scheme: punctured-CRS setup, per-identity key
//! derivation, aggregate-key encryption, and pairing-equality decryption.
//!
//! Identities `1..=capacity` fall into `n = isqrt(capacity)` buckets by
//! `id % n`, and into slots by `id / n`. Setup draws a trapdoor `tau` and
//! publishes its powers in both groups, with the power at index `n`
//! punctured out and replaced by the bare generator, so that no party can
//! reassemble the withheld power from the published entries. The trapdoor
//! itself is a local of `setup` and is dropped when it returns.

use vstd::prelude::*;

use crate::arith::{
    addmod, fr_order, is_residue, lemma_addmod_cancel, lemma_addmod_noop, lemma_mulmod_noop,
    lemma_double_below_square, lemma_mulmod_distrib, lemma_powmod_add, lemma_powmod_unfold,
    lemma_residue_mod, lemma_submod_noop,
    mulmod, powmod, submod,
};
use crate::error::RbeError;
use crate::group::{
    g1_add, g1_generator_point, g1_mul, g1_sanity_check, g1_zero_point, g2_generator_point,
    g2_mul, g2_sanity_check, gt_add, gt_eq, gt_mul, gt_sub, pairing_points, scalar_inverse,
    scalar_is_zero, scalar_mul, scalar_rand,
};
use crate::group::{G1Elem, G2Elem, GtElem, Scalar};

verus! {

/// The public parameters of a deployment.
#[derive(Clone, Copy)]
pub struct Params {
    /// The number of identities the deployment can register.
    pub capacity: usize,
    /// The bucket count: the integer square root of the capacity.
    pub n: usize,
    /// The bucket size: `capacity / n`, rounded down.
    pub num_blocks: usize,
}

impl Params {
    /// The fields are consistent: `n` is the integer square root of the
    /// capacity and `num_blocks` its quotient by `n`.
    pub open spec fn wf(&self) -> bool {
        &&& 1 <= self.n
        &&& self.n * self.n <= self.capacity
        &&& self.capacity < (self.n + 1) * (self.n + 1)
        &&& self.num_blocks == self.capacity as int / self.n as int
    }
}

/// The common reference string: the punctured powers of tau in both
/// source groups.
pub struct CRS {
    pub crs1: Vec<G1Elem>,
    pub crs2: Vec<G2Elem>,
}

impl CRS {
    /// Both vectors hold `2n` well-formed entries.
    pub open spec fn wf(&self, n: int) -> bool {
        &&& self.crs1@.len() == 2 * n
        &&& self.crs2@.len() == 2 * n
        &&& forall|i: int| 0 <= i < 2 * n ==> (#[trigger] self.crs1@[i]).wf()
        &&& forall|i: int| 0 <= i < 2 * n ==> (#[trigger] self.crs2@[i]).wf()
    }

    /// Entry `i` is the `(i+1)`-th power of `tau`, in both groups alike,
    /// except at the punctured index `n`, which holds the bare generator
    /// and never a computed power.
    pub open spec fn is_powers_of(&self, n: int, tau: int) -> bool {
        &&& forall|i: int|
            0 <= i < 2 * n && i != n ==> (#[trigger] self.crs1@[i]).dlog@ == powmod(
                tau,
                (i + 1) as nat,
            )
        &&& forall|i: int|
            0 <= i < 2 * n && i != n ==> (#[trigger] self.crs2@[i]).dlog@ == powmod(
                tau,
                (i + 1) as nat,
            )
        &&& self.crs1@[n].dlog@ == 1
        &&& self.crs2@[n].dlog@ == 1
    }
}

/// A ciphertext: the tuple (c0, c1, c2, c3) that `enc` produces.
#[derive(Clone, Copy)]
pub struct CText(pub G1Elem, pub GtElem, pub G2Elem, pub GtElem);

impl CText {
    pub open spec fn wf(&self) -> bool {
        self.0.wf() && self.1.wf() && self.2.wf() && self.3.wf()
    }
}

/// The integer square root: the largest `r` with `r * r <= x`.
pub fn isqrt(x: usize) -> (r: usize)
    ensures
        r * r <= x < (r + 1) * (r + 1),
{
    let mut r: usize = 0;
    let mut s: usize = 0;
    while (s as u128) + 2 * (r as u128) + 1 <= x as u128
        invariant
            s == r * r,
            s <= x,
            r <= x,
        decreases x - r,
    {
        proof {
            assert((r + 1) * (r + 1) == r * r + 2 * r + 1) by (nonlinear_arith);
        }
        let add = 2 * r + 1;
        s = s + add;
        r = r + 1;
    }
    proof {
        assert((r + 1) * (r + 1) == r * r + 2 * r + 1) by (nonlinear_arith);
    }
    r
}

/// Generates the punctured powers-of-tau reference string for the given
/// capacity, together with the derived parameters. Every entry except the
/// punctured one is a power of one trapdoor `tau`, drawn here and dropped
/// on return; entry `n` is the bare generator in both groups. Each
/// computed point passes a defensive on-curve and subgroup check; a
/// failure there would be a defect of the underlying arithmetic and
/// surfaces as `MalformedGroupElement`, an outcome the checks' contracts
/// rule out.
pub fn setup(capacity: usize) -> (res: Result<(Params, CRS), RbeError>)
    requires
        1 <= capacity,
    ensures
        res matches Ok(pc) && pc.0.capacity == capacity && pc.0.wf() && pc.1.wf(pc.0.n as int)
            && pc.1.crs1@[pc.0.n as int].dlog@ == 1 && pc.1.crs2@[pc.0.n as int].dlog@ == 1
            && exists|tau: int| is_residue(tau) && pc.1.is_powers_of(pc.0.n as int, tau),
{
    let n = isqrt(capacity);
    proof {
        assert(n >= 1) by (nonlinear_arith)
            requires
                capacity < (n + 1) * (n + 1),
                1 <= capacity,
                n >= 0,
        ;
        lemma_double_below_square(n as int, capacity as int, usize::MAX as int);
    }
    let num_blocks = capacity / n;
    let tau = scalar_rand();
    let mut power = tau;
    proof {
        lemma_residue_mod(tau.v@);
        lemma_mulmod_noop(tau.v@, 1);
        lemma_powmod_unfold(tau.v@, 0);
        assert(mulmod(tau.v@, 1) == tau.v@);
    }
    let g1 = g1_generator_point();
    let g2 = g2_generator_point();
    let mut crs1: Vec<G1Elem> = Vec::new();
    let mut crs2: Vec<G2Elem> = Vec::new();
    let mut i: usize = 0;
    while i < 2 * n
        invariant
            1 <= n,
            2 * n <= usize::MAX,
            i <= 2 * n,
            tau.wf(),
            power.wf(),
            g1.wf(),
            g1.dlog@ == 1,
            g2.wf(),
            g2.dlog@ == 1,
            crs1@.len() == i,
            crs2@.len() == i,
            power.v@ == powmod(tau.v@, (i + 1) as nat),
            forall|j: int| 0 <= j < i ==> (#[trigger] crs1@[j]).wf(),
            forall|j: int| 0 <= j < i ==> (#[trigger] crs2@[j]).wf(),
            forall|j: int|
                0 <= j < i && j != n ==> (#[trigger] crs1@[j]).dlog@ == powmod(
                    tau.v@,
                    (j + 1) as nat,
                ),
            forall|j: int|
                0 <= j < i && j != n ==> (#[trigger] crs2@[j]).dlog@ == powmod(
                    tau.v@,
                    (j + 1) as nat,
                ),
            i > n ==> crs1@[n as int].dlog@ == 1,
            i > n ==> crs2@[n as int].dlog@ == 1,
        decreases 2 * n - i,
    {
        if i == n {
            // the (n+1)-th power is punctured out
            crs1.push(g1);
            crs2.push(g2);
        } else {
            let e1 = g1_mul(&g1, &power);
            let e2 = g2_mul(&g2, &power);
            proof {
                lemma_mulmod_noop(1, power.v@);
                lemma_residue_mod(power.v@);
                assert(mulmod(1, power.v@) == power.v@);
            }
            let ok1 = g1_sanity_check(&e1);
            let ok2 = g2_sanity_check(&e2);
            if !ok1 || !ok2 {
                return Err(RbeError::MalformedGroupElement);
            }
            crs1.push(e1);
            crs2.push(e2);
        }
        power = scalar_mul(&power, &tau);
        proof {
            lemma_powmod_unfold(tau.v@, (i + 1) as nat);
        }
        i = i + 1;
    }
    let params = Params { capacity, n, num_blocks };
    let crs = CRS { crs1, crs2 };
    proof {
        assert(crs.is_powers_of(n as int, tau.v@));
    }
    Ok((params, crs))
}

/// Derives the keypair and helper values of one identity. Fails with
/// `InvalidIdentity` exactly when the identity lies outside
/// `[1, capacity]`. The public key is the identity's CRS entry taken
/// `sk` times, and helper value `j` is the CRS entry `j` places past that
/// entry, taken `sk` times: a window of `n - 1` entries published so
/// bucket-peers can match this identity's contribution without `sk`.
pub fn gen(params: Params, crs: &CRS, id: usize) -> (res: Result<
    (G1Elem, Scalar, Vec<G1Elem>),
    RbeError,
>)
    requires
        params.wf(),
        crs.wf(params.n as int),
    ensures
        res matches Err(e) ==> e == RbeError::InvalidIdentity && (id < 1 || id > params.capacity),
        id < 1 || id > params.capacity ==> res matches Err(RbeError::InvalidIdentity),
        res matches Ok(out) ==> {
            &&& 1 <= id <= params.capacity
            &&& out.1.wf()
            &&& out.0.wf()
            &&& out.0.dlog@ == mulmod(
                crs.crs1@[(id % params.n) as int].dlog@,
                out.1.v@,
            )
            &&& out.2@.len() == params.n - 1
            &&& forall|j: int| 0 <= j < params.n - 1 ==> (#[trigger] out.2@[j]).wf()
            &&& forall|j: int|
                0 <= j < params.n - 1 ==> (#[trigger] out.2@[j]).dlog@ == mulmod(
                    crs.crs1@[id % params.n + j].dlog@,
                    out.1.v@,
                )
        },
{
    if id < 1 || id > params.capacity {
        return Err(RbeError::InvalidIdentity);
    }
    let id_bar = id % params.n;
    proof {
        lemma_double_below_square(params.n as int, params.capacity as int, usize::MAX as int);
    }
    let sk = scalar_rand();
    let pk = g1_mul(&crs.crs1[id_bar], &sk);
    let mut hv: Vec<G1Elem> = Vec::new();
    let mut j: usize = 0;
    while j < params.n - 1
        invariant
            params.wf(),
            crs.wf(params.n as int),
            sk.wf(),
            id_bar == id % params.n,
            id_bar < params.n,
            2 * params.n <= usize::MAX,
            j <= params.n - 1,
            hv@.len() == j,
            forall|k: int| 0 <= k < j ==> (#[trigger] hv@[k]).wf(),
            forall|k: int|
                0 <= k < j ==> (#[trigger] hv@[k]).dlog@ == mulmod(
                    crs.crs1@[id_bar + k].dlog@,
                    sk.v@,
                ),
        decreases params.n - 1 - j,
    {
        let e = g1_mul(&crs.crs1[id_bar + j], &sk);
        hv.push(e);
        j = j + 1;
    }
    Ok((pk, sk, hv))
}

/// The four components of a ciphertext for bucket index `id_bar`, slot
/// aggregate `ppk`, randomness `r` and message `m`, all as discrete
/// logarithms over the CRS.
pub open spec fn enc_rel(crs: CRS, n: int, id_bar: int, ppk: int, r: int, m: int, ct: CText) -> bool {
    &&& ct.0.dlog@ == ppk
    &&& ct.1.dlog@ == mulmod(mulmod(ppk, crs.crs2@[n - id_bar].dlog@), r)
    &&& ct.2.dlog@ == r
    &&& ct.3.dlog@ == addmod(
        mulmod(mulmod(crs.crs1@[id_bar].dlog@, crs.crs2@[n - id_bar].dlog@), r),
        m,
    )
}

/// Encrypts a target-group message to an identity against the current
/// slot aggregate `pp`. The ciphertext carries the aggregate itself, the
/// aggregate paired with the bucket's opposite CRS entry and blinded by a
/// fresh `r`, the generator taken `r` times, and the message masked by
/// the identity's own pairing value taken `r` times. Correctness holds
/// only if `pp` at the identity's slot is the exact sum of the keys
/// registered for it: the caller's obligation.
pub fn enc(params: Params, crs: &CRS, pp: Vec<G1Elem>, id: usize, m: GtElem) -> (ct: CText)
    requires
        params.wf(),
        crs.wf(params.n as int),
        1 <= id <= params.capacity,
        id / params.n < pp@.len(),
        forall|i: int| 0 <= i < pp@.len() ==> (#[trigger] pp@[i]).wf(),
        m.wf(),
    ensures
        ct.wf(),
        exists|r: int|
            is_residue(r) && enc_rel(
                *crs,
                params.n as int,
                (id % params.n) as int,
                pp@[(id / params.n) as int].dlog@,
                r,
                m.dlog@,
                ct,
            ),
{
    let id_bar = id % params.n;
    let k = id / params.n;
    let r = scalar_rand();
    let c0 = pp[k];
    let t1 = pairing_points(&pp[k], &crs.crs2[params.n - id_bar]);
    let c1 = gt_mul(&t1, &r);
    let g2g = g2_generator_point();
    let c2 = g2_mul(&g2g, &r);
    proof {
        lemma_mulmod_noop(1, r.v@);
        lemma_residue_mod(r.v@);
        assert(mulmod(1, r.v@) == r.v@);
    }
    let t3 = pairing_points(&crs.crs1[id_bar], &crs.crs2[params.n - id_bar]);
    let t3r = gt_mul(&t3, &r);
    let c3 = gt_add(&t3r, &m);
    let ct = CText(c0, c1, c2, c3);
    proof {
        assert(enc_rel(
            *crs,
            params.n as int,
            id_bar as int,
            pp@[k as int].dlog@,
            r.v@,
            m.dlog@,
            ct,
        ));
    }
    ct
}

/// The pairing equation `dec` scans for: the auxiliary element `item`
/// accounts exactly for the gap between the ciphertext's slot aggregate
/// `c0` and this identity's own key contribution.
pub open spec fn aux_matches(crs: CRS, n: int, id_bar: int, c0: int, skv: int, item: int) -> bool {
    mulmod(c0, crs.crs2@[n - id_bar].dlog@) == addmod(
        item,
        mulmod(mulmod(crs.crs1@[id_bar].dlog@, skv), crs.crs2@[n - id_bar].dlog@),
    )
}

/// Recovers the plaintext from the secret key, the ciphertext, and the
/// auxiliary values fetched from the ledger. Scans `u` for the first
/// element satisfying the pairing equation; with no match the result is
/// `DecryptionPending`, the signal to refetch helper data and retry. On a
/// match, a zero secret key is `InvalidKey`; otherwise the masked
/// component is unblinded through the inverse of the secret key.
pub fn dec(params: Params, crs: &CRS, id: usize, sk: Scalar, u: Vec<G1Elem>, ct: CText) -> (res:
    Result<GtElem, RbeError>)
    requires
        params.wf(),
        crs.wf(params.n as int),
        sk.wf(),
        ct.wf(),
        forall|i: int| 0 <= i < u@.len() ==> (#[trigger] u@[i]).wf(),
    ensures
        (res matches Err(RbeError::DecryptionPending)) <==> !(exists|i: int|
            0 <= i < u@.len() && aux_matches(
                *crs,
                params.n as int,
                (id % params.n) as int,
                ct.0.dlog@,
                sk.v@,
                u@[i].dlog@,
            )),
        (res matches Err(RbeError::InvalidKey)) <==> ((exists|i: int|
            0 <= i < u@.len() && aux_matches(
                *crs,
                params.n as int,
                (id % params.n) as int,
                ct.0.dlog@,
                sk.v@,
                u@[i].dlog@,
            )) && sk.v@ == 0),
        res matches Err(e) ==> e == RbeError::DecryptionPending || e == RbeError::InvalidKey,
        res matches Ok(pt) ==> pt.wf() && sk.v@ != 0 && exists|i: int, w: int|
            {
                &&& 0 <= i < u@.len()
                &&& aux_matches(
                    *crs,
                    params.n as int,
                    (id % params.n) as int,
                    ct.0.dlog@,
                    sk.v@,
                    u@[i].dlog@,
                )
                &&& forall|j: int|
                    0 <= j < i ==> !aux_matches(
                        *crs,
                        params.n as int,
                        (id % params.n) as int,
                        ct.0.dlog@,
                        sk.v@,
                        u@[j].dlog@,
                    )
                &&& is_residue(w)
                &&& mulmod(w, sk.v@) == 1
                &&& pt.dlog@ == submod(
                    ct.3.dlog@,
                    mulmod(submod(ct.1.dlog@, mulmod(u@[i].dlog@, ct.2.dlog@)), w),
                )
            },
{
    let ghost n_spec = params.n as int;
    let ghost id_bar_spec = (id % params.n) as int;
    let id_bar = id % params.n;
    let w2 = crs.crs2[params.n - id_bar];
    let lhs = pairing_points(&ct.0, &w2);
    let pk_part = g1_mul(&crs.crs1[id_bar], &sk);
    let rhs_fixed = pairing_points(&pk_part, &w2);
    let g2g = g2_generator_point();
    let mut found: bool = false;
    let mut l: G1Elem = g1_zero_point();
    let mut li: Ghost<int> = Ghost(0int);
    let mut idx: usize = 0;
    while idx < u.len() && !found
        invariant
            params.wf(),
            crs.wf(n_spec),
            n_spec == params.n as int,
            id_bar_spec == (id % params.n) as int,
            id_bar == id % params.n,
            id_bar < params.n,
            sk.wf(),
            ct.wf(),
            forall|i: int| 0 <= i < u@.len() ==> (#[trigger] u@[i]).wf(),
            g2g.wf(),
            g2g.dlog@ == 1,
            lhs.dlog@ == mulmod(ct.0.dlog@, crs.crs2@[n_spec - id_bar_spec].dlog@),
            rhs_fixed.dlog@ == mulmod(
                mulmod(crs.crs1@[id_bar_spec].dlog@, sk.v@),
                crs.crs2@[n_spec - id_bar_spec].dlog@,
            ),
            idx <= u@.len(),
            !found ==> forall|j: int|
                0 <= j < idx ==> !aux_matches(
                    *crs,
                    n_spec,
                    id_bar_spec,
                    ct.0.dlog@,
                    sk.v@,
                    u@[j].dlog@,
                ),
            found ==> {
                &&& 0 <= li@ < u@.len()
                &&& aux_matches(*crs, n_spec, id_bar_spec, ct.0.dlog@, sk.v@, u@[li@].dlog@)
                &&& forall|j: int|
                    0 <= j < li@ ==> !aux_matches(
                        *crs,
                        n_spec,
                        id_bar_spec,
                        ct.0.dlog@,
                        sk.v@,
                        u@[j].dlog@,
                    )
                &&& l == u@[li@]
            },
        decreases u@.len() - idx,
    {
        let cand = pairing_points(&u[idx], &g2g);
        proof {
            lemma_mulmod_noop(u@[idx as int].dlog@, 1);
            lemma_residue_mod(u@[idx as int].dlog@);
            assert(mulmod(u@[idx as int].dlog@, 1) == u@[idx as int].dlog@);
        }
        let rhs = gt_add(&cand, &rhs_fixed);
        if gt_eq(&lhs, &rhs) {
            found = true;
            l = u[idx];
            li = Ghost(idx as int);
        }
        idx = idx + 1;
    }
    if !found {
        // no fitting element: the caller must refetch the helper data
        return Err(RbeError::DecryptionPending);
    }
    if scalar_is_zero(&sk) {
        return Err(RbeError::InvalidKey);
    }
    let sk_inv = scalar_inverse(&sk);
    let masked = pairing_points(&l, &ct.2);
    let denom_sk = gt_sub(&ct.1, &masked);
    let denom = gt_mul(&denom_sk, &sk_inv);
    let pt = gt_sub(&ct.3, &denom);
    Ok(pt)
}

/// Adds one freshly registered public key into the aggregate for its
/// slot, leaving every other slot as it was.
pub fn register_pk(pp: &mut Vec<G1Elem>, slot: usize, pk: &G1Elem)
    requires
        slot < old(pp)@.len(),
        forall|i: int| 0 <= i < old(pp)@.len() ==> (#[trigger] old(pp)@[i]).wf(),
        pk.wf(),
    ensures
        final(pp)@.len() == old(pp)@.len(),
        final(pp)@[slot as int].dlog@ == addmod(old(pp)@[slot as int].dlog@, pk.dlog@),
        forall|i: int|
            0 <= i < old(pp)@.len() && i != slot ==> final(pp)@[i] == old(pp)@[i],
        forall|i: int| 0 <= i < final(pp)@.len() ==> (#[trigger] final(pp)@[i]).wf(),
{
    let cur = pp[slot];
    let sum = g1_add(&cur, pk);
    pp[slot] = sum;
}

/// The matching equation pins the auxiliary element down: among residues
/// exactly one value satisfies it, the gap between the slot aggregate's
/// pairing with the bucket's opposite CRS entry and the identity's own
/// key contribution. So which matching element `dec` takes cannot matter.
pub proof fn lemma_aux_match_value(crs: CRS, n: int, id_bar: int, c0: int, skv: int, item: int)
    requires
        is_residue(item),
    ensures
        aux_matches(crs, n, id_bar, c0, skv, item) <==> item == submod(
            mulmod(c0, crs.crs2@[n - id_bar].dlog@),
            mulmod(mulmod(crs.crs1@[id_bar].dlog@, skv), crs.crs2@[n - id_bar].dlog@),
        ),
{
    let w2 = crs.crs2@[n - id_bar].dlog@;
    let a = mulmod(c0, w2);
    let x = mulmod(mulmod(crs.crs1@[id_bar].dlog@, skv), w2);
    if aux_matches(crs, n, id_bar, c0, skv, item) {
        lemma_addmod_cancel(item, x, a);
    }
    if item == submod(a, x) {
        lemma_addmod_noop(a - x, x);
        assert(a - x + x == a);
        lemma_residue_mod(c0 * w2);
    }
}

/// When the identity's own key is the whole slot aggregate — it is the
/// only registrant — the zero element already satisfies the matching
/// equation: no peer helper data is needed to decrypt.
pub proof fn lemma_sole_registrant_matches_zero(crs: CRS, n: int, id_bar: int, skv: int)
    ensures
        aux_matches(crs, n, id_bar, mulmod(crs.crs1@[id_bar].dlog@, skv), skv, 0),
{
    let w2 = crs.crs2@[n - id_bar].dlog@;
    let pkw = mulmod(mulmod(crs.crs1@[id_bar].dlog@, skv), w2);
    lemma_residue_mod(mulmod(crs.crs1@[id_bar].dlog@, skv) * w2);
    assert(addmod(0, pkw) == pkw % fr_order());
}

/// A bucket-peer's helper value satisfies the matching equation in a
/// two-registrant slot: with the aggregate the sum of both keys, the
/// element the peer derived from the reference-string entry at offset
/// `n - id_bar + 1` past its own bucket index is exactly the gap the
/// decryptor scans for. The facing entry must be a true power, away
/// from the punctured index and inside the string.
pub proof fn lemma_peer_helper_matches(
    crs: CRS,
    n: int,
    tau: int,
    i_a: int,
    i_b: int,
    sk_a: int,
    sk_b: int,
)
    requires
        crs.is_powers_of(n, tau),
        1 <= i_a < n,
        0 <= i_b < n,
        i_b + n - i_a + 1 != n,
        i_b + n - i_a + 1 < 2 * n,
    ensures
        aux_matches(
            crs,
            n,
            i_a,
            addmod(mulmod(crs.crs1@[i_a].dlog@, sk_a), mulmod(crs.crs1@[i_b].dlog@, sk_b)),
            sk_a,
            mulmod(crs.crs1@[i_b + n - i_a + 1].dlog@, sk_b),
        ),
{
    let w1 = crs.crs1@[i_a].dlog@;
    let w2 = crs.crs2@[n - i_a].dlog@;
    let pb = crs.crs1@[i_b].dlog@;
    let hf = crs.crs1@[i_b + n - i_a + 1].dlog@;
    assert(w2 == powmod(tau, (n - i_a + 1) as nat));
    assert(pb == powmod(tau, (i_b + 1) as nat));
    assert(hf == powmod(tau, (i_b + n - i_a + 2) as nat));
    // the facing entry is the peer's entry times the opposite entry
    lemma_powmod_add(tau, (i_b + 1) as nat, (n - i_a + 1) as nat);
    assert(hf == mulmod(pb, w2));
    // so the peer's lifted helper is its lifted key paired across
    lemma_mulmod_noop(pb * w2, sk_b);
    lemma_mulmod_noop(pb * sk_b, w2);
    assert(pb * w2 * sk_b == pb * sk_b * w2) by (nonlinear_arith);
    assert(mulmod(hf, sk_b) == mulmod(mulmod(pb, sk_b), w2));
    // and the aggregate splits over the pairing
    lemma_mulmod_distrib(mulmod(w1, sk_a), mulmod(pb, sk_b), w2);
}

/// The round trip, in the contracts' own terms: a ciphertext standing in
/// `enc`'s relation to message `m`, an auxiliary element satisfying
/// `dec`'s matching equation, and an inverse pair of a secret key give
/// back exactly `m` when combined as `dec`'s success case combines them.
/// Together with `dec`'s promise to succeed whenever a match is present,
/// this is the correctness of decryption for every capacity, identity,
/// trapdoor and message.
pub proof fn lemma_dec_recovers(
    crs: CRS,
    n: int,
    id_bar: int,
    ppk: int,
    skv: int,
    skinv: int,
    r: int,
    m: int,
    l: int,
    ct: CText,
    pt: int,
)
    requires
        is_residue(m),
        enc_rel(crs, n, id_bar, ppk, r, m, ct),
        aux_matches(crs, n, id_bar, ct.0.dlog@, skv, l),
        mulmod(skinv, skv) == 1,
        pt == submod(ct.3.dlog@, mulmod(submod(ct.1.dlog@, mulmod(l, ct.2.dlog@)), skinv)),
    ensures
        pt == m,
{
    lemma_round_trip(
        crs.crs1@[id_bar].dlog@,
        crs.crs2@[n - id_bar].dlog@,
        ppk,
        skv,
        skinv,
        r,
        m,
        l,
        ct.1.dlog@,
        ct.2.dlog@,
        ct.3.dlog@,
        pt,
    );
}

/// The round trip in full generality, composed over the functions' own
/// postconditions: for every capacity, bucket, trapdoor, slot aggregate
/// and message, if a ciphertext stands in the relation `enc` publishes
/// for message `m`, and `dec` answered `Ok(pt)` — its success clause
/// provides the matching auxiliary element and the inverse of the
/// nonzero secret key — then `pt` is exactly `m`. Together with `dec`'s
/// remaining clauses, which promise success whenever the auxiliary
/// sequence holds a matching element and the key is nonzero, decryption
/// inverts encryption.
pub proof fn lemma_round_trip_general(
    crs: CRS,
    n: int,
    id_bar: int,
    ppk: int,
    m: int,
    ct: CText,
    u: Seq<G1Elem>,
    skv: int,
    pt: GtElem,
)
    requires
        is_residue(m),
        exists|r: int| is_residue(r) && enc_rel(crs, n, id_bar, ppk, r, m, ct),
        exists|i: int, w: int|
            {
                &&& 0 <= i < u.len()
                &&& aux_matches(crs, n, id_bar, ct.0.dlog@, skv, u[i].dlog@)
                &&& is_residue(w)
                &&& mulmod(w, skv) == 1
                &&& pt.dlog@ == submod(
                    ct.3.dlog@,
                    mulmod(submod(ct.1.dlog@, mulmod(u[i].dlog@, ct.2.dlog@)), w),
                )
            },
    ensures
        pt.dlog@ == m,
{
    let r = choose|r: int| is_residue(r) && enc_rel(crs, n, id_bar, ppk, r, m, ct);
    let (i, w) = choose|i: int, w: int|
        {
            &&& 0 <= i < u.len()
            &&& aux_matches(crs, n, id_bar, ct.0.dlog@, skv, u[i].dlog@)
            &&& is_residue(w)
            &&& mulmod(w, skv) == 1
            &&& pt.dlog@ == submod(
                ct.3.dlog@,
                mulmod(submod(ct.1.dlog@, mulmod(u[i].dlog@, ct.2.dlog@)), w),
            )
        };
    lemma_dec_recovers(crs, n, id_bar, ppk, skv, w, r, m, u[i].dlog@, ct, pt.dlog@);
}

/// Decryption undoes encryption. Take any ciphertext related to the slot
/// aggregate `ppk`, randomness `r` and message `m` as `enc` relates them;
/// any auxiliary element `l` satisfying the matching equation for a key
/// with value `skv`; and any inverse `skinv` of that key. Then the value
/// `dec` computes from them is the message itself, whatever the trapdoor,
/// the bucket, or the number of registered peers.
pub proof fn lemma_round_trip(
    w1: int,
    w2: int,
    ppk: int,
    skv: int,
    skinv: int,
    r: int,
    m: int,
    l: int,
    c1: int,
    c2: int,
    c3: int,
    pt: int,
)
    requires
        is_residue(m),
        c1 == mulmod(mulmod(ppk, w2), r),
        c2 == r,
        c3 == addmod(mulmod(mulmod(w1, w2), r), m),
        mulmod(ppk, w2) == addmod(l, mulmod(mulmod(w1, skv), w2)),
        mulmod(skinv, skv) == 1,
        pt == submod(c3, mulmod(submod(c1, mulmod(l, c2)), skinv)),
    ensures
        pt == m,
{
    // every quantity in flat `(product) % order` form
    lemma_mulmod_noop(w1 * skv, w2);
    assert(mulmod(mulmod(w1, skv), w2) == (w1 * skv * w2) % fr_order());
    lemma_mulmod_noop(ppk * w2, r);
    assert(c1 == (ppk * w2 * r) % fr_order());
    lemma_addmod_noop(l, w1 * skv * w2);
    assert((ppk * w2) % fr_order() == (l + w1 * skv * w2) % fr_order());
    // the denominator, before unblinding: e(l, c2) subtracted from c1
    let d = submod(c1, mulmod(l, c2));
    lemma_submod_noop(ppk * w2 * r, (l * r) % fr_order());
    lemma_submod_noop(ppk * w2 * r, l * r);
    assert(d == (ppk * w2 * r - l * r) % fr_order());
    assert(ppk * w2 * r - l * r == (ppk * w2 - l) * r) by (nonlinear_arith);
    // the matching equation turns the difference into the key contribution
    lemma_submod_noop(ppk * w2, l);
    lemma_submod_noop(l + w1 * skv * w2, l);
    assert((ppk * w2 - l) % fr_order() == (w1 * skv * w2) % fr_order()) by {
        assert(l + w1 * skv * w2 - l == w1 * skv * w2);
    };
    lemma_mulmod_noop(ppk * w2 - l, r);
    lemma_mulmod_noop(w1 * skv * w2, r);
    assert(d == (w1 * skv * w2 * r) % fr_order());
    // unblinding cancels the secret key against its inverse
    let dw = mulmod(d, skinv);
    lemma_mulmod_noop(w1 * skv * w2 * r, skinv);
    assert(dw == (w1 * skv * w2 * r * skinv) % fr_order());
    assert(w1 * skv * w2 * r * skinv == (w1 * w2 * r) * (skinv * skv)) by (nonlinear_arith);
    lemma_mulmod_noop(w1 * w2 * r, skinv * skv);
    assert(dw == mulmod(w1 * w2 * r, 1));
    assert(w1 * w2 * r * 1 == w1 * w2 * r);
    assert(dw == (w1 * w2 * r) % fr_order());
    // the masked component, in flat form
    lemma_mulmod_noop(w1 * w2, r);
    lemma_addmod_noop(w1 * w2 * r, m);
    assert(c3 == (w1 * w2 * r + m) % fr_order());
    // peeling the mask leaves the message
    lemma_submod_noop(w1 * w2 * r + m, (w1 * w2 * r) % fr_order());
    lemma_submod_noop(w1 * w2 * r + m, w1 * w2 * r);
    assert(pt == (w1 * w2 * r + m - (w1 * w2 * r)) % fr_order());
    assert(w1 * w2 * r + m - (w1 * w2 * r) == m);
    lemma_residue_mod(m);
}

} // verus!
