//! Signature masks: each registered component type owns one bit of a
//! 32-bit mask.  A system's required mask is the union of the bits of the
//! component types it needs, and an entity matches a system when its
//! signature is a bit-superset of the required mask.

use vstd::prelude::*;

verus! {

/// Upper bound on the number of component types a registry can hold:
/// the width of a signature mask.
pub const MAX_COMPONENTS: usize = 32;

/// Bit `b` of mask `m` is set.
pub open spec fn bit_set(m: u32, b: u32) -> bool {
    m & (1u32 << b) != 0
}

/// The mask owned by the component type sitting at slot `b`.
pub open spec fn slot_mask(b: u32) -> u32 {
    1u32 << b
}

/// `entity_mask` is a bit-superset of `required`: the entity owns every
/// component type the mask requires.
pub open spec fn mask_matches(entity_mask: u32, required: u32) -> bool {
    entity_mask & required == required
}

/// Only bits below `n` may be set in `m`.
pub open spec fn mask_in_range(m: u32, n: int) -> bool {
    forall|b: u32| 0 <= n <= b < 32 ==> !bit_set(m, b)
}

/// No key occurs twice.
pub open spec fn distinct_keys(keys: Seq<u64>) -> bool {
    forall|i: int, j: int| 0 <= i < j < keys.len() ==> keys[i] != keys[j]
}

/// The slot (bit position) of `key` in `keys`.  Meaningful only when
/// `keys` contains `key`; with distinct keys it is the unique index
/// holding `key` (see `lemma_slot_of`).
pub open spec fn slot_of(keys: Seq<u64>, key: u64) -> int {
    choose|i: int| 0 <= i < keys.len() && keys[i] == key
}

/// With distinct keys, `slot_of` is the one index holding `key`.
pub proof fn lemma_slot_of(keys: Seq<u64>, key: u64)
    requires
        distinct_keys(keys),
        keys.contains(key),
    ensures
        0 <= slot_of(keys, key) < keys.len(),
        keys[slot_of(keys, key)] == key,
        forall|i: int| 0 <= i < keys.len() && keys[i] == key ==> i == slot_of(keys, key),
{
    let s = slot_of(keys, key);
    assert(0 <= s < keys.len() && keys[s] == key) by {
        let w = choose|i: int| 0 <= i < keys.len() && keys[i] == key;
        assert(keys[w] == key);
    }
}

/// A key pushed onto a distinct key sequence keeps every old slot and
/// takes the next one.
pub proof fn lemma_slot_of_push(keys: Seq<u64>, key: u64, new_key: u64)
    requires
        distinct_keys(keys),
        !keys.contains(new_key),
    ensures
        distinct_keys(keys.push(new_key)),
        keys.contains(key) ==> slot_of(keys.push(new_key), key) == slot_of(keys, key),
        slot_of(keys.push(new_key), new_key) == keys.len(),
{
    let keys2 = keys.push(new_key);
    assert forall|i: int, j: int| 0 <= i < j < keys2.len() implies keys2[i] != keys2[j] by {
        if j == keys.len() {
            assert(keys2[i] == keys[i]);
            assert(keys.contains(keys[i]));
        }
    }
    if keys.contains(key) {
        lemma_slot_of(keys, key);
        assert(keys2[slot_of(keys, key)] == key);
        assert(keys2.contains(key));
        lemma_slot_of(keys2, key);
    }
    assert(keys2[keys.len() as int] == new_key);
    assert(keys2.contains(new_key));
    lemma_slot_of(keys2, new_key);
}

/// Setting bit `b` by or-ing in its mask sets exactly that bit.
pub proof fn lemma_or_bit(m: u32, b: u32, c: u32)
    by (bit_vector)
    requires
        b < 32,
        c < 32,
    ensures
        bit_set(m | (1u32 << b), c) == (bit_set(m, c) || c == b),
{
}

/// Clearing a set bit `b` by xor-ing its mask clears exactly that bit.
pub proof fn lemma_xor_bit(m: u32, b: u32, c: u32)
    by (bit_vector)
    requires
        b < 32,
        c < 32,
        bit_set(m, b),
    ensures
        bit_set(m ^ (1u32 << b), c) == (bit_set(m, c) && c != b),
{
}

/// The zero mask has no bit set.
pub proof fn lemma_zero_mask(c: u32)
    by (bit_vector)
    ensures
        !bit_set(0u32, c),
{
}

/// Mask composition: with one component type owning bit 0 and another
/// owning bit 1, a builder that starts at zero and ors in both bits
/// yields the required mask `0b11`, and a signature `m` owning bit 0
/// alone never matches that requirement.
pub proof fn lemma_mask_composition(m: u32)
    requires
        bit_set(m, 0),
        !bit_set(m, 1),
    ensures
        slot_mask(0) | slot_mask(1) == 0b11u32,
        0u32 | slot_mask(0) | slot_mask(1) == 0b11u32,
        !mask_matches(m, 0b11u32),
{
    assert((1u32 << 0u32) | (1u32 << 1u32) == 0b11u32) by (bit_vector);
    assert(0u32 | (1u32 << 0u32) | (1u32 << 1u32) == 0b11u32) by (bit_vector);
    assert((bit_set(m, 0) && !bit_set(m, 1)) ==> !mask_matches(m, 0b11u32)) by (bit_vector);
}

/// Testing one component bit: masking an entity signature with a single-bit
/// mask yields that mask back exactly when the bit is set.
pub proof fn lemma_single_bit_test(m: u32, b: u32)
    by (bit_vector)
    requires
        b < 32,
    ensures
        (m & (1u32 << b) == (1u32 << b)) == bit_set(m, b),
{
}

} // verus!
