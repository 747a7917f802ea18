//! Generators and random elements of the two source groups.

use vstd::prelude::*;

use crate::error::RbeError;
use crate::group::{
    g1_coords_point, g1_from_coords, g1_generator_point, g1_mul, g2_generator_point, g2_mul,
    scalar_rand,
};
use crate::group::{G1Elem, G2Elem};

verus! {

/// The fixed generator of G1, of discrete logarithm one.
pub fn g1_generator() -> (r: G1Elem)
    ensures
        r.wf(),
        r.dlog@ == 1,
{
    g1_generator_point()
}

/// The fixed generator of G2, of discrete logarithm one.
pub fn g2_generator() -> (r: G2Elem)
    ensures
        r.wf(),
        r.dlog@ == 1,
{
    g2_generator_point()
}

/// A random element of G1: the generator taken a random number of times.
pub fn g1_rand() -> (r: G1Elem)
    ensures
        r.wf(),
{
    let s = scalar_rand();
    let g = g1_generator_point();
    g1_mul(&g, &s)
}

/// A random element of G2: the generator taken a random number of times.
pub fn g2_rand() -> (r: G2Elem)
    ensures
        r.wf(),
{
    let s = scalar_rand();
    let g = g2_generator_point();
    g2_mul(&g, &s)
}

/// Decodes the ledger's 64-byte uncompressed encoding — two 32-byte
/// big-endian affine coordinates — into a G1 element: exactly the point
/// the coordinate decode accepts for the two halves. Any other length,
/// or a point failing the curve and subgroup checks, is a
/// `MalformedGroupElement`.
pub fn contract_bytes_to_g1(b: &Vec<u8>) -> (res: Result<G1Elem, RbeError>)
    ensures
        res is Ok <==> b@.len() == 64 && g1_coords_point(
            b@.subrange(0, 32),
            b@.subrange(32, 64),
        ) is Some,
        res matches Ok(p) ==> p.wf() && g1_coords_point(b@.subrange(0, 32), b@.subrange(32, 64))
            == Some(p.dlog@),
        res matches Err(e) ==> e == RbeError::MalformedGroupElement,
{
    if b.len() != 64 {
        return Err(RbeError::MalformedGroupElement);
    }
    let mut xb: Vec<u8> = Vec::new();
    let mut yb: Vec<u8> = Vec::new();
    let mut i: usize = 0;
    while i < 32
        invariant
            i <= 32,
            b@.len() == 64,
            xb@ == b@.subrange(0, i as int),
        decreases 32 - i,
    {
        proof {
            assert(b@.subrange(0, i + 1) =~= b@.subrange(0, i as int).push(b@[i as int]));
        }
        xb.push(b[i]);
        i = i + 1;
    }
    let mut j: usize = 32;
    while j < 64
        invariant
            32 <= j <= 64,
            b@.len() == 64,
            yb@ == b@.subrange(32, j as int),
        decreases 64 - j,
    {
        proof {
            assert(b@.subrange(32, j + 1) =~= b@.subrange(32, j as int).push(b@[j as int]));
        }
        yb.push(b[j]);
        j = j + 1;
    }
    match g1_from_coords(&xb, &yb) {
        Some(p) => Ok(p),
        None => Err(RbeError::MalformedGroupElement),
    }
}

} // verus!
