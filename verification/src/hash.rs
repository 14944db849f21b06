//! The 64-bit FNV-1a hash, used as the registry's content key.

use vstd::prelude::*;

verus! {

/// Initial state of 64-bit FNV-1a (the hash of the empty input).
pub const FNV_OFFSET_BASIS: u64 = 0xcbf2_9ce4_8422_2325;

/// Multiplier of 64-bit FNV-1a.
pub const FNV_PRIME: u64 = 0x0100_0000_01b3;

/// One round of FNV-1a: mix the byte in with XOR, then multiply (mod 2^64).
pub open spec fn fnv1a_step(h: u64, b: u8) -> u64 {
    vstd::wrapping::u64_specs::wrapping_mul(h ^ (b as u64), FNV_PRIME)
}

/// FNV-1a of a byte sequence: the rounds applied left to right from the basis.
pub open spec fn fnv1a_spec(data: Seq<u8>) -> u64
    decreases data.len(),
{
    if data.len() == 0 {
        FNV_OFFSET_BASIS
    } else {
        fnv1a_step(fnv1a_spec(data.drop_last()), data.last())
    }
}

/// FNV-1a 64-bit hash of `data`.
pub fn fnv1a(data: &[u8]) -> (h: u64)
    ensures
        h == fnv1a_spec(data@),
{
    let mut h: u64 = FNV_OFFSET_BASIS;
    let mut i: usize = 0;
    while i < data.len()
        invariant
            i <= data@.len(),
            h == fnv1a_spec(data@.take(i as int)),
        decreases data@.len() - i,
    {
        let b = data[i];
        h ^= b as u64;
        h = h.wrapping_mul(FNV_PRIME);
        proof {
            assert(data@.take(i + 1).drop_last() =~= data@.take(i as int));
        }
        i += 1;
    }
    proof {
        assert(data@.take(data@.len() as int) =~= data@);
    }
    h
}


/// Multiplying by the FNV prime modulo 2^64 can be undone: the prime is odd,
/// and this is its inverse modulo 2^64.
proof fn lemma_prime_mul_invertible(x: u64)
    by (bit_vector)
    ensures
        vstd::wrapping::u64_specs::wrapping_mul(
            vstd::wrapping::u64_specs::wrapping_mul(x, 0x0100_0000_01b3u64),
            0xce96_5057_aff6_957bu64,
        ) == x,
{
}


/// A round never merges two different states fed the same byte.
proof fn lemma_step_injective_in_state(h1: u64, h2: u64, b: u8)
    requires
        h1 != h2,
    ensures
        fnv1a_step(h1, b) != fnv1a_step(h2, b),
{
    lemma_prime_mul_invertible(h1 ^ (b as u64));
    lemma_prime_mul_invertible(h2 ^ (b as u64));
    assert((h1 ^ (b as u64)) != (h2 ^ (b as u64))) by (bit_vector)
        requires
            h1 != h2,
    ;
}

/// A round never merges two different bytes fed into the same state.
proof fn lemma_step_injective_in_byte(h: u64, b1: u8, b2: u8)
    requires
        b1 != b2,
    ensures
        fnv1a_step(h, b1) != fnv1a_step(h, b2),
{
    lemma_prime_mul_invertible(h ^ (b1 as u64));
    lemma_prime_mul_invertible(h ^ (b2 as u64));
    assert((h ^ (b1 as u64)) != (h ^ (b2 as u64))) by (bit_vector)
        requires
            b1 != b2,
    ;
}

/// Hashing one more byte is one more round on the hash so far, so a hash can
/// be extended byte by byte.
pub proof fn lemma_fnv1a_push(data: Seq<u8>, b: u8)
    ensures
        fnv1a_spec(data.push(b)) == fnv1a_step(fnv1a_spec(data), b),
{
    assert(data.push(b).drop_last() =~= data);
}

/// Inputs whose hashes differ keep differing hashes when the same bytes are
/// appended to both.
pub proof fn lemma_fnv1a_common_suffix_keeps_distinct(a: Seq<u8>, b: Seq<u8>, suffix: Seq<u8>)
    requires
        fnv1a_spec(a) != fnv1a_spec(b),
    ensures
        fnv1a_spec(a + suffix) != fnv1a_spec(b + suffix),
    decreases suffix.len(),
{
    if suffix.len() == 0 {
        assert(a + suffix =~= a);
        assert(b + suffix =~= b);
    } else {
        let init = suffix.drop_last();
        lemma_fnv1a_common_suffix_keeps_distinct(a, b, init);
        assert((a + suffix).drop_last() =~= a + init);
        assert((b + suffix).drop_last() =~= b + init);
        lemma_step_injective_in_state(fnv1a_spec(a + init), fnv1a_spec(b + init), suffix.last());
    }
}

/// Changing a single byte of an input always changes its hash: two inputs of
/// the same length that differ at exactly one position never collide.
pub proof fn lemma_fnv1a_single_byte_change(a: Seq<u8>, b: Seq<u8>, k: int)
    requires
        a.len() == b.len(),
        0 <= k < a.len(),
        a[k] != b[k],
        forall|i: int| 0 <= i < a.len() && i != k ==> a[i] == b[i],
    ensures
        fnv1a_spec(a) != fnv1a_spec(b),
{
    let prefix = a.take(k);
    assert(b.take(k) =~= prefix);
    lemma_fnv1a_push(prefix, a[k]);
    lemma_fnv1a_push(prefix, b[k]);
    lemma_step_injective_in_byte(fnv1a_spec(prefix), a[k], b[k]);
    let suffix = a.skip(k + 1);
    assert(b.skip(k + 1) =~= suffix);
    lemma_fnv1a_common_suffix_keeps_distinct(prefix.push(a[k]), prefix.push(b[k]), suffix);
    assert(prefix.push(a[k]) + suffix =~= a);
    assert(prefix.push(b[k]) + suffix =~= b);
}

} // verus!
