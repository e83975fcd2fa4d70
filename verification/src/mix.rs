//! Mixing of a 64-bit identifier into a well-spread 64-bit hash.
//!
//! Identifiers that are numerically close (consecutive thread numbers, nearby
//! addresses) must not end up with similar colours. The mixer runs two rounds
//! of "fold the high half into the low half, then multiply by an odd constant"
//! and folds once more at the end. Every step is a bijection on `u64`, so two
//! different identifiers never share a hash.
use vstd::prelude::*;

verus! {

/// The multiplier of both rounds: 2^64 divided by the golden ratio, as an odd
/// integer.
pub const MULTIPLIER: u64 = 0x9E37_79B9_7F4A_7C15;

/// The inverse of [`MULTIPLIER`] modulo 2^64.
pub const MULTIPLIER_INVERSE: u64 = 0xF1DE_83E1_9937_733D;

/// `x` with its high 32 bits xor-ed into its low 32 bits.
pub open spec fn folded(x: u64) -> u64 {
    x ^ (x >> 32)
}

/// The product of `x` and [`MULTIPLIER`] modulo 2^64.
pub open spec fn scaled(x: u64) -> u64 {
    x.wrapping_mul(MULTIPLIER)
}

/// The hash of `x`: fold, multiply, fold, multiply, fold.
pub open spec fn mixed(x: u64) -> u64 {
    folded(scaled(folded(scaled(folded(x)))))
}

/// Computes the hash of `x`.
pub fn mix(x: u64) -> (h: u64)
    ensures
        h == mixed(x),
{
    let a: u64 = x ^ (x >> 32);
    let b: u64 = a.wrapping_mul(MULTIPLIER);
    let c: u64 = b ^ (b >> 32);
    let d: u64 = c.wrapping_mul(MULTIPLIER);
    d ^ (d >> 32)
}

/// The quotient of `x` by [`MULTIPLIER`] modulo 2^64.
pub open spec fn unscaled(x: u64) -> u64 {
    x.wrapping_mul(MULTIPLIER_INVERSE)
}

/// The identifier whose hash is `h`.
pub open spec fn unmixed(h: u64) -> u64 {
    folded(unscaled(folded(unscaled(folded(h)))))
}

/// Folding twice gives the value back.
pub proof fn lemma_folded_twice(x: u64)
    ensures
        folded(folded(x)) == x,
{
    assert((x ^ (x >> 32)) ^ ((x ^ (x >> 32)) >> 32) == x) by (bit_vector);
}

/// Multiplying by the multiplier and by its inverse, in either order, gives
/// the value back.
pub proof fn lemma_scaled_unscaled(x: u64)
    ensures
        unscaled(scaled(x)) == x,
        scaled(unscaled(x)) == x,
{
    assert(unscaled(scaled(x)) == x) by (bit_vector);
    assert(scaled(unscaled(x)) == x) by (bit_vector);
}

/// The mixer is a bijection on `u64`: [`unmixed`] undoes [`mixed`], and
/// [`mixed`] undoes [`unmixed`].
pub proof fn lemma_mixed_is_bijective(x: u64)
    ensures
        unmixed(mixed(x)) == x,
        mixed(unmixed(x)) == x,
{
    let a = folded(x);
    let b = scaled(a);
    let c = folded(b);
    let d = scaled(c);
    lemma_folded_twice(d);
    lemma_scaled_unscaled(c);
    lemma_folded_twice(b);
    lemma_scaled_unscaled(a);
    lemma_folded_twice(x);
    let p = folded(x);
    let q = unscaled(p);
    let r = folded(q);
    let t = unscaled(r);
    lemma_folded_twice(t);
    lemma_scaled_unscaled(r);
    lemma_folded_twice(q);
    lemma_scaled_unscaled(p);
}

/// Two identifiers with the same hash are the same identifier.
pub proof fn lemma_mixed_is_injective(a: u64, b: u64)
    requires
        mixed(a) == mixed(b),
    ensures
        a == b,
{
    lemma_mixed_is_bijective(a);
    lemma_mixed_is_bijective(b);
}

} // verus!
