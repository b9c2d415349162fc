//! The case-insensitive rolling hash that names every field of the format.

use vstd::prelude::*;
use vstd::utf8::encode_utf8;

verus! {

/// Multiplier of the rolling hash.
pub const HASH_MULTIPLIER: u32 = 65599;

/// The byte that separates a section name from a field name.
pub const SEPARATOR: u8 = 0x2A;

/// ASCII lower-casing of one byte; bytes outside `A..=Z` are unchanged.
pub open spec fn lower(b: u8) -> u8 {
    if 0x41 <= b && b <= 0x5A {
        (b + 0x20) as u8
    } else {
        b
    }
}

/// One step of the hash: `h * 65599 + lower(b)`, wrapping at 32 bits.
pub open spec fn hash_step(h: u32, b: u8) -> u32 {
    h.wrapping_mul(HASH_MULTIPLIER).wrapping_add(lower(b) as u32)
}

/// The hash of `bytes`, taken left to right from `seed`.
pub open spec fn hash_fold(seed: u32, bytes: Seq<u8>) -> u32
    decreases bytes.len(),
{
    if bytes.len() == 0 {
        seed
    } else {
        hash_step(hash_fold(seed, bytes.drop_last()), bytes.last())
    }
}

/// The bytes that are hashed for a `(section, ident)` pair.
pub open spec fn key_bytes(section: Seq<char>, ident: Seq<char>) -> Seq<u8> {
    encode_utf8(section) + seq![SEPARATOR] + encode_utf8(ident)
}

/// The hash key of a `(section, ident)` pair.
pub open spec fn hash_of(section: Seq<char>, ident: Seq<char>) -> u32 {
    hash_fold(0, key_bytes(section, ident))
}

/// Extending `prev` by the bytes of `next`.
pub open spec fn hash_extend(prev: u32, next: Seq<char>) -> u32 {
    hash_fold(prev, encode_utf8(next))
}

/// Folding over a concatenation is folding over the second part, seeded
/// with the fold over the first.
pub proof fn lemma_hash_fold_concat(seed: u32, a: Seq<u8>, b: Seq<u8>)
    ensures
        hash_fold(seed, a + b) == hash_fold(hash_fold(seed, a), b),
    decreases b.len(),
{
    if b.len() > 0 {
        lemma_hash_fold_concat(seed, a, b.drop_last());
        assert((a + b).drop_last() =~= a + b.drop_last());
    }
}

/// The hash of a pair is the hash of the section with an empty field name,
/// extended by the field name.
pub proof fn lemma_hash_chain(section: Seq<char>, ident: Seq<char>)
    ensures
        hash_of(section, ident) == hash_extend(hash_of(section, Seq::<char>::empty()), ident),
{
    lemma_hash_fold_concat(0, encode_utf8(section) + seq![SEPARATOR], encode_utf8(ident));
}

/// The bytes of a concatenation are the bytes of its parts, one after the
/// other.
pub proof fn lemma_encode_concat(a: Seq<char>, b: Seq<char>)
    ensures
        encode_utf8(a + b) == encode_utf8(a) + encode_utf8(b),
    decreases a.len(),
{
    if a.len() > 0 {
        lemma_encode_concat(a.drop_first(), b);
        assert((a + b).drop_first() =~= a.drop_first() + b);
    }
}

/// Extending a hash by two names in turn is extending it by the two names
/// joined.
pub proof fn lemma_hash_extend_concat(prev: u32, a: Seq<char>, b: Seq<char>)
    ensures
        hash_extend(hash_extend(prev, a), b) == hash_extend(prev, a + b),
{
    lemma_encode_concat(a, b);
    lemma_hash_fold_concat(prev, encode_utf8(a), encode_utf8(b));
}

/// Two byte strings that agree up to ASCII case hash alike from any seed.
pub proof fn lemma_hash_ignores_case(seed: u32, a: Seq<u8>, b: Seq<u8>)
    requires
        a.len() == b.len(),
        forall|k: int| 0 <= k < a.len() ==> lower(#[trigger] a[k]) == lower(b[k]),
    ensures
        hash_fold(seed, a) == hash_fold(seed, b),
    decreases a.len(),
{
    if a.len() > 0 {
        lemma_hash_ignores_case(seed, a.drop_last(), b.drop_last());
    }
}

/// Lower-cases one ASCII letter.
pub fn to_lower(b: u8) -> (r: u8)
    ensures
        r == lower(b),
{
    if b >= 0x41 && b <= 0x5A {
        b - 0x41 + 0x61
    } else {
        b
    }
}

/// Extends the hash `prev` by the bytes of `next`.
pub fn inibin_incremental_hash(prev: u32, next: &str) -> (h: u32)
    ensures
        h == hash_extend(prev, next@),
{
    let bytes = next.as_bytes();
    let mut h: u32 = prev;
    let mut i: usize = 0;
    while i < bytes.len()
        invariant
            i <= bytes@.len(),
            h == hash_fold(prev, bytes@.take(i as int)),
        decreases bytes@.len() - i,
    {
        assert(bytes@.take(i + 1).drop_last() =~= bytes@.take(i as int));
        h = h.wrapping_mul(HASH_MULTIPLIER).wrapping_add(to_lower(bytes[i]) as u32);
        i += 1;
    }
    assert(bytes@.take(i as int) =~= bytes@);
    h
}

/// The hash key of the field `ident` in the section `section`.
pub fn inibin_hash(section: &str, ident: &str) -> (h: u32)
    ensures
        h == hash_of(section@, ident@),
{
    let seed = inibin_incremental_hash(0, section);
    let mid = seed.wrapping_mul(HASH_MULTIPLIER).wrapping_add(to_lower(SEPARATOR) as u32);
    let h = inibin_incremental_hash(mid, ident);
    proof {
        let s = encode_utf8(section@);
        let i = encode_utf8(ident@);
        assert((s + seq![SEPARATOR]).drop_last() =~= s);
        lemma_hash_fold_concat(0, s + seq![SEPARATOR], i);
    }
    h
}

} // verus!
