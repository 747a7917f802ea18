//! Modular arithmetic over the scalar-field order of BN254.
//!
//! Every group element the scheme handles lives in a cyclic group of prime
//! order `fr_order()`, so the whole protocol is arithmetic on exponents
//! modulo that order. The spec functions here are the vocabulary of all
//! contracts; the lemmas give the ring identities the correctness proofs use.

use vstd::prelude::*;

use vstd::arithmetic::div_mod::{
    lemma_add_mod_noop, lemma_add_mod_noop_right, lemma_mod_bound, lemma_mod_twice,
    lemma_mul_mod_noop_general, lemma_small_mod, lemma_sub_mod_noop, lemma_sub_mod_noop_right,
};

verus! {

/// The order of the BN254 scalar field (and of the groups G1, G2, GT).
pub open spec fn fr_order() -> int {
    21888242871839275222246405745257275088548364400416034343698204186575808495617int
}

/// `a + b` reduced into `[0, fr_order())`.
pub open spec fn addmod(a: int, b: int) -> int {
    (a + b) % fr_order()
}

/// `a - b` reduced into `[0, fr_order())`.
pub open spec fn submod(a: int, b: int) -> int {
    (a - b) % fr_order()
}

/// `a * b` reduced into `[0, fr_order())`.
pub open spec fn mulmod(a: int, b: int) -> int {
    (a * b) % fr_order()
}

/// `base^exp` reduced into `[0, fr_order())`.
pub open spec fn powmod(base: int, exp: nat) -> int
    decreases exp,
{
    if exp == 0 {
        1
    } else {
        mulmod(base, powmod(base, (exp - 1) as nat))
    }
}

/// A residue: an integer already reduced modulo the group order.
pub open spec fn is_residue(a: int) -> bool {
    0 <= a < fr_order()
}

/// Twice a number fits below any bound that holds its square (and three).
pub proof fn lemma_double_below_square(n: int, cap: int, bound: int)
    requires
        1 <= n,
        n * n <= cap,
        cap <= bound,
        3 <= bound,
    ensures
        2 * n <= bound,
{
    if n >= 2 {
        assert(2 * n <= n * n) by (nonlinear_arith)
            requires
                n >= 2,
        ;
    }
}

/// One step of the power recurrence, and its base case.
pub proof fn lemma_powmod_unfold(base: int, exp: nat)
    ensures
        powmod(base, 0) == 1,
        powmod(base, exp + 1) == mulmod(base, powmod(base, exp)),
{
}

/// Reducing either argument first does not change a modular product.
pub proof fn lemma_mulmod_noop(x: int, y: int)
    ensures
        mulmod(x % fr_order(), y) == mulmod(x, y),
        mulmod(x, y % fr_order()) == mulmod(x, y),
{
    lemma_mul_mod_noop_general(x, y, fr_order());
}

/// Reducing either argument first does not change a modular sum.
pub proof fn lemma_addmod_noop(x: int, y: int)
    ensures
        addmod(x % fr_order(), y) == addmod(x, y),
        addmod(x, y % fr_order()) == addmod(x, y),
{
    lemma_add_mod_noop_right(x, y, fr_order());
    lemma_add_mod_noop_right(y, x, fr_order());
}

/// Reducing either argument first does not change a modular difference.
pub proof fn lemma_submod_noop(x: int, y: int)
    ensures
        submod(x % fr_order(), y) == submod(x, y),
        submod(x, y % fr_order()) == submod(x, y),
{
    lemma_sub_mod_noop(x, y, fr_order());
    lemma_sub_mod_noop_right(x, y, fr_order());
    lemma_sub_mod_noop_right(x % fr_order(), y, fr_order());
}

/// A residue is its own reduction, and every reduction is a residue.
pub proof fn lemma_residue_mod(x: int)
    ensures
        is_residue(x) ==> x % fr_order() == x,
        (x % fr_order()) % fr_order() == x % fr_order(),
        is_residue(x % fr_order()),
{
    lemma_mod_bound(x, fr_order());
    lemma_mod_twice(x, fr_order());
    if is_residue(x) {
        lemma_small_mod(x as nat, fr_order() as nat);
    }
}

/// A modular power is a residue.
pub proof fn lemma_powmod_residue(base: int, exp: nat)
    ensures
        is_residue(powmod(base, exp)),
{
    if exp == 0 {
        assert(powmod(base, 0) == 1);
    } else {
        lemma_residue_mod(base * powmod(base, (exp - 1) as nat));
    }
}

/// Modular multiplication is associative.
pub proof fn lemma_mulmod_assoc(x: int, y: int, z: int)
    ensures
        mulmod(mulmod(x, y), z) == mulmod(x, mulmod(y, z)),
{
    lemma_mulmod_noop(x * y, z);
    lemma_mulmod_noop(x, y * z);
    assert((x * y) * z == x * (y * z)) by (nonlinear_arith);
}

/// Powers multiply by adding exponents.
pub proof fn lemma_powmod_add(base: int, a: nat, b: nat)
    ensures
        powmod(base, a + b) == mulmod(powmod(base, a), powmod(base, b)),
    decreases a,
{
    if a == 0 {
        lemma_powmod_residue(base, b);
        lemma_mulmod_noop(1, powmod(base, b));
        lemma_residue_mod(powmod(base, b));
        assert(mulmod(1, powmod(base, b)) == powmod(base, b) % fr_order());
    } else {
        lemma_powmod_add(base, (a - 1) as nat, b);
        lemma_mulmod_assoc(base, powmod(base, (a - 1) as nat), powmod(base, b));
        assert(powmod(base, ((a - 1) + b) as nat) == powmod(base, (a + b - 1) as nat));
    }
}

/// Modular multiplication distributes over modular addition.
pub proof fn lemma_mulmod_distrib(x: int, y: int, z: int)
    ensures
        mulmod(addmod(x, y), z) == addmod(mulmod(x, z), mulmod(y, z)),
{
    lemma_mulmod_noop(x + y, z);
    assert((x + y) * z == x * z + y * z) by (nonlinear_arith);
    lemma_add_mod_noop(x * z, y * z, fr_order());
}

/// A modular sum and one addend determine the other addend: the only
/// residue `l` with `addmod(l, x) == s` is `submod(s, x)`.
pub proof fn lemma_addmod_cancel(l: int, x: int, s: int)
    requires
        is_residue(l),
        addmod(l, x) == s,
    ensures
        l == submod(s, x),
{
    lemma_submod_noop(l + x, x);
    assert(submod(l + x, x) == l % fr_order()) by {
        assert(l + x - x == l);
    };
    lemma_residue_mod(l);
}

} // verus!
