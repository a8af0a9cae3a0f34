//! Point sampling: raw values drawn from a random generator are mapped to
//! coordinates through a base-2 logarithm.
//!
//! The logarithm of a non-positive number is undefined, so a policy is
//! needed for non-positive draws; the one chosen here maps them to
//! coordinate 0, and positive draws to the logarithm rounded down.

use vstd::prelude::*;
use vstd::arithmetic::power2::pow2;
use vstd::arithmetic::power2::lemma2_to64;

verus! {

/// rand's standard generator, declared so that it can stand in signatures;
/// a value of it is opaque here.
#[verifier::external_type_specification]
#[verifier::external_body]
pub struct ExStdRng(rand::rngs::StdRng);

/// Relies on rand::Rng::gen::<i16>: draws a random 16-bit value, advancing
/// the generator. The result depends on the generator's state, so nothing
/// is claimed of it; every caller must cope with every value.
#[verifier::external_body]
pub(crate) fn draw_raw(rng: &mut rand::rngs::StdRng) -> i16 {
    rand::Rng::gen(rng)
}

/// Base-2 logarithm of n, rounded down (and 0 for n below 2).
pub open spec fn log2_floor(n: int) -> int
    decreases n,
{
    if n < 2 {
        0
    } else {
        1 + log2_floor(n / 2)
    }
}

/// The coordinate a raw draw maps to: 0 for a non-positive draw, the
/// base-2 logarithm rounded down otherwise.
pub open spec fn coord_of_raw(raw: int) -> int {
    if raw <= 0 {
        0
    } else {
        log2_floor(raw)
    }
}

/// The logarithm is never negative.
proof fn lemma_log2_floor_nonneg(n: int)
    ensures
        log2_floor(n) >= 0,
    decreases n,
{
    if n >= 2 {
        lemma_log2_floor_nonneg(n / 2);
    }
}

/// Below pow2(k + 1) the logarithm is at most k.
proof fn lemma_log2_floor_bound(n: int, k: nat)
    requires
        1 <= n < pow2(k + 1),
    ensures
        log2_floor(n) <= k,
    decreases k,
{
    if n >= 2 {
        assert(pow2(k + 1) == 2 * pow2(k)) by {
            vstd::arithmetic::power2::lemma_pow2_unfold(k + 1);
        }
        assert(k >= 1) by {
            if k == 0 {
                assert(pow2(1) == 2) by {
                    lemma2_to64();
                }
            }
        }
        lemma_log2_floor_bound(n / 2, (k - 1) as nat);
    }
}

/// Maps a raw draw to a coordinate: non-positive draws give 0, positive
/// draws give the base-2 logarithm rounded down. The result always lies in
/// 0 ..= 14, since a positive draw is at most 32767.
pub fn coord_from_raw(raw: i16) -> (c: i16)
    ensures
        c as int == coord_of_raw(raw as int),
        0 <= c <= 14,
{
    if raw <= 0 {
        return 0;
    }
    proof {
        assert(pow2(15) == 32768) by {
            lemma2_to64();
        }
        lemma_log2_floor_bound(raw as int, 14);
        lemma_log2_floor_nonneg(raw as int);
    }
    let mut v: u16 = raw as u16;
    let mut e: i16 = 0;
    while v >= 2
        invariant
            1 <= v,
            0 <= e,
            e as int + log2_floor(v as int) == log2_floor(raw as int),
            log2_floor(v as int) >= 0,
            e as int + log2_floor(v as int) <= 14,
        decreases v,
    {
        proof {
            lemma_log2_floor_nonneg(v as int / 2);
        }
        v = v / 2;
        e = e + 1;
    }
    e
}

} // verus!
