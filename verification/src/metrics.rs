//! Size and similarity estimates reported by the registry.

use vstd::prelude::*;

verus! {

/// Compressed size of `size` bytes at the typical 35% ratio, rounded down.
pub open spec fn compressed_size_spec(size: int) -> int {
    size * 35 / 100
}

/// Estimates the size after compression, applying the typical 35%
/// compression ratio of binary model data (rounded down).
pub fn estimate_compressed_size(original_bytes: u64) -> (r: u64)
    ensures
        r == compressed_size_spec(original_bytes as int),
        r <= original_bytes,
        100 * r <= 35 * original_bytes < 100 * (r + 1),
{
    let q = original_bytes / 20;
    let rem = original_bytes % 20;
    proof {
        lemma_seven_twentieths(original_bytes as int, q as int, rem as int);
    }
    let r = q * 7 + rem * 7 / 20;
    proof {
        lemma_compressed_size_is_floor(original_bytes as int);
    }
    r
}

/// The estimate is 35% of the size rounded down: the largest `r` with
/// `100 * r <= 35 * size`.
pub proof fn lemma_compressed_size_is_floor(size: int)
    requires
        size >= 0,
    ensures
        100 * compressed_size_spec(size) <= 35 * size < 100 * (compressed_size_spec(size) + 1),
{
    let c = compressed_size_spec(size);
    assert(100 * c <= 35 * size < 100 * (c + 1)) by (nonlinear_arith)
        requires
            c == size * 35 / 100,
            size >= 0,
    ;
}

proof fn lemma_seven_twentieths(x: int, q: int, r: int)
    requires
        x >= 0,
        q == x / 20,
        r == x % 20,
    ensures
        x * 35 / 100 == q * 7 + r * 7 / 20,
        q * 7 + r * 7 / 20 <= x,
{
    assert(x == 20 * q + r) by (nonlinear_arith)
        requires
            q == x / 20,
            r == x % 20,
    ;
    assert(x * 35 / 100 == (20 * q * 7 + 7 * r) / 20) by (nonlinear_arith)
        requires
            x == 20 * q + r,
    ;
    assert((20 * (q * 7) + 7 * r) / 20 == q * 7 + (7 * r) / 20) by (nonlinear_arith)
        requires
            0 <= r < 20,
    ;
    assert(q * 7 + r * 7 / 20 <= x) by (nonlinear_arith)
        requires
            x == 20 * q + r,
            0 <= r < 20,
            q >= 0,
    ;
}

/// The compressed-size estimate never decreases as the input grows.
pub proof fn lemma_compressed_size_monotone(a: int, b: int)
    requires
        0 <= a <= b,
    ensures
        compressed_size_spec(a) <= compressed_size_spec(b),
{
    assert(a * 35 / 100 <= b * 35 / 100) by (nonlinear_arith)
        requires
            0 <= a <= b,
    ;
}

/// Similarity of two versions in half-percent units (200 is 100%), given the
/// total number of added, removed and modified nodes: each change costs half
/// a percent, and the similarity never drops below 20%.
pub open spec fn similarity_half_percent_spec(total_changes: int) -> int {
    if total_changes < 160 {
        200 - total_changes
    } else {
        40
    }
}

/// Similarity between two versions, in half-percent units: 200 means 100%
/// (identical), and each changed node lowers it by one unit (0.5%), down to
/// a floor of 40 (20%).
pub fn similarity_half_percent(added: u32, removed: u32, modified: u32) -> (s: u32)
    requires
        added + removed + modified <= u32::MAX,
    ensures
        s == similarity_half_percent_spec(added + removed + modified),
        added + removed + modified < 160 ==> s == 200 - (added + removed + modified),
        added + removed + modified >= 160 ==> s == 40,
        40 <= s <= 200,
        s == 200 <==> added + removed + modified == 0,
{
    let total = added + removed + modified;
    if total < 160 {
        200 - total
    } else {
        40
    }
}

/// More changes never raise the similarity.
pub proof fn lemma_similarity_non_increasing(fewer: int, more: int)
    requires
        0 <= fewer <= more,
    ensures
        similarity_half_percent_spec(more) <= similarity_half_percent_spec(fewer),
{
}


/// No change means 100%; each further change below the floor costs exactly
/// one half percent; from 160 changes on the similarity stays at 20%.
pub proof fn lemma_similarity_steps(t: int)
    requires
        t >= 0,
    ensures
        similarity_half_percent_spec(0) == 200,
        t < 160 ==> similarity_half_percent_spec(t + 1) == similarity_half_percent_spec(t) - 1,
        t >= 160 ==> similarity_half_percent_spec(t) == 40,
        t < 160 ==> similarity_half_percent_spec(t) == 200 - t,
{
}

} // verus!
