//! Content hashes. Each side uses them on its own for echo suppression; they
//! are never compared across machines, except that an offer's id is quoted
//! back in the pull that answers it.

use vstd::prelude::*;
use vstd::std_specs::iter::IteratorSpec;

verus! {

pub const FNV_BASIS: u64 = 0xcbf29ce484222325;

pub const FNV_PRIME: u64 = 0x100000001b3;

/// One step of the hash.
pub open spec fn mix(h: u64, x: u64) -> u64 {
    (((h ^ x) * FNV_PRIME) % 0x1_0000_0000_0000_0000) as u64
}

/// The hash of `data`, continued from `h`.
pub open spec fn hash_bytes(h: u64, data: Seq<u8>) -> u64
    decreases data.len(),
{
    if data.len() == 0 {
        h
    } else {
        mix(hash_bytes(h, data.drop_last()), data.last() as u64)
    }
}

/// The hash of one named size, continued from `h`: the bytes of the name,
/// then the size.
pub open spec fn hash_entry(h: u64, name: Seq<char>, size: u64) -> u64 {
    mix(hash_bytes(h, vstd::utf8::encode_utf8(name)), size)
}

/// The hash of a list of named sizes.
pub open spec fn hash_list(items: Seq<(Seq<char>, u64)>) -> u64
    decreases items.len(),
{
    if items.len() == 0 {
        FNV_BASIS
    } else {
        hash_entry(hash_list(items.drop_last()), items.last().0, items.last().1)
    }
}

/// The names and sizes of a list.
pub open spec fn entries(items: Seq<(String, u64)>) -> Seq<(Seq<char>, u64)> {
    items.map_values(|e: (String, u64)| (e.0@, e.1))
}

fn mix_in(h: u64, x: u64) -> (r: u64)
    ensures
        r == mix(h, x),
{
    (h ^ x).wrapping_mul(FNV_PRIME)
}

fn mix_in_bytes(h: u64, data: &[u8]) -> (r: u64)
    ensures
        r == hash_bytes(h, data@),
{
    let mut r: u64 = h;
    let mut i: usize = 0;
    while i < data.len()
        invariant
            i <= data@.len(),
            r == hash_bytes(h, data@.take(i as int)),
        decreases data.len() - i,
    {
        assert(data@.take(i + 1).drop_last() =~= data@.take(i as int));
        r = mix_in(r, data[i] as u64);
        i += 1;
    }
    assert(data@.take(i as int) =~= data@);
    r
}

/// Cheap change signature for a file batch: relative names and sizes.
/// Used only locally for echo suppression (never compared across
/// machines), so filesystem-dependent details like mtimes stay out.
pub fn list_signature<I: Iterator<Item = (String, u64)>>(items: I) -> (h: u64)
    requires
        items.obeys_prophetic_iter_laws(),
        items.decrease() is Some,
    ensures
        h == hash_list(entries(items.remaining())),
{
    let mut items = items;
    let ghost all = items.remaining();
    let mut h: u64 = FNV_BASIS;
    let ghost mut n: int = 0;
    loop
        invariant
            items.obeys_prophetic_iter_laws(),
            items.decrease() is Some,
            0 <= n <= all.len(),
            items.remaining() == all.skip(n),
            h == hash_list(entries(all.take(n))),
        ensures
            h == hash_list(entries(all)),
        decreases items.decrease()->0,
    {
        match items.next() {
            Some((name, size)) => {
                h = mix_in(mix_in_bytes(h, name.as_str().as_bytes()), size);
                proof {
                    let done = entries(all.take(n + 1));
                    assert(done.drop_last() =~= entries(all.take(n)));
                    assert(done.last() == (name@, size));
                    n = n + 1;
                }
            },
            None => {
                assert(all.take(n) =~= all);
                break;
            },
        }
    }
    h
}

/// FNV-1a, used by both endpoints for local echo suppression only.
pub fn fnv1a(data: &[u8]) -> (h: u64)
    ensures
        h == hash_bytes(FNV_BASIS, data@),
{
    mix_in_bytes(FNV_BASIS, data)
}

/// The change hash of clipboard content: its bytes, set apart by kind.
pub open spec fn content_hash_of(kind: u8, data: Seq<u8>) -> u64 {
    hash_bytes(FNV_BASIS, data) ^ (kind as u64)
}

pub fn content_hash(kind: u8, data: &[u8]) -> (h: u64)
    ensures
        h == content_hash_of(kind, data@),
{
    fnv1a(data) ^ (kind as u64)
}

/// The id under which content with this change hash is offered: both halves
/// of the hash, folded.
pub open spec fn offer_id_of(hash: u64) -> u32 {
    ((hash % 0x1_0000_0000) as u32) ^ ((hash / 0x1_0000_0000) as u32)
}

pub fn offer_id(hash: u64) -> (id: u32)
    ensures
        id == offer_id_of(hash),
{
    ((hash % 0x1_0000_0000) as u32) ^ ((hash / 0x1_0000_0000) as u32)
}

/// Multiplying by the inverse of the prime undoes multiplying by the prime.
proof fn lemma_prime_inverse(x: u64)
    ensures
        (((x * FNV_PRIME) % 0x1_0000_0000_0000_0000) * 0xce965057aff6957bint)
            % 0x1_0000_0000_0000_0000 == x,
{
    let m: int = 0x1_0000_0000_0000_0000;
    let p: int = 0x100000001b3;
    let q: int = 0xce965057aff6957b;
    assert((p * q) % m == 1);
    vstd::arithmetic::div_mod::lemma_mul_mod_noop_left(x * p, q, m);
    vstd::arithmetic::mul::lemma_mul_is_associative(x as int, p, q);
    vstd::arithmetic::div_mod::lemma_mul_mod_noop_right(x as int, p * q, m);
    vstd::arithmetic::div_mod::lemma_small_mod(x as nat, m as nat);
}

proof fn lemma_times_prime_injective(a: u64, b: u64)
    requires
        (a * FNV_PRIME) % 0x1_0000_0000_0000_0000 == (b * FNV_PRIME) % 0x1_0000_0000_0000_0000,
    ensures
        a == b,
{
    lemma_prime_inverse(a);
    lemma_prime_inverse(b);
}

proof fn lemma_mix_injective(h1: u64, h2: u64, x1: u64, x2: u64)
    ensures
        h1 != h2 ==> mix(h1, x1) != mix(h2, x1),
        x1 != x2 ==> mix(h1, x1) != mix(h1, x2),
{
    assert(h1 ^ x1 == h2 ^ x1 ==> h1 == h2) by (bit_vector);
    assert(h1 ^ x1 == h1 ^ x2 ==> x1 == x2) by (bit_vector);
    if mix(h1, x1) == mix(h2, x1) {
        lemma_times_prime_injective(h1 ^ x1, h2 ^ x1);
    }
    if mix(h1, x1) == mix(h1, x2) {
        lemma_times_prime_injective(h1 ^ x1, h1 ^ x2);
    }
}

proof fn lemma_hash_bytes_injective(h1: u64, h2: u64, data: Seq<u8>)
    requires
        h1 != h2,
    ensures
        hash_bytes(h1, data) != hash_bytes(h2, data),
    decreases data.len(),
{
    if data.len() > 0 {
        lemma_hash_bytes_injective(h1, h2, data.drop_last());
        lemma_mix_injective(
            hash_bytes(h1, data.drop_last()),
            hash_bytes(h2, data.drop_last()),
            data.last() as u64,
            0,
        );
    }
}

/// A batch in which exactly one size has changed has another signature.
pub proof fn size_change_changes_signature(items: Seq<(Seq<char>, u64)>, i: int, size: u64)
    requires
        0 <= i < items.len(),
        size != items[i].1,
    ensures
        hash_list(items.update(i, (items[i].0, size))) != hash_list(items),
    decreases items.len(),
{
    let changed = items.update(i, (items[i].0, size));
    let h1 = hash_list(items.drop_last());
    let h2 = hash_list(changed.drop_last());
    let name = vstd::utf8::encode_utf8(items.last().0);
    if i == items.len() - 1 {
        assert(changed.drop_last() =~= items.drop_last());
        lemma_mix_injective(hash_bytes(h1, name), 0, items[i].1, size);
    } else {
        assert(changed.drop_last() =~= items.drop_last().update(i, (items[i].0, size)));
        size_change_changes_signature(items.drop_last(), i, size);
        lemma_hash_bytes_injective(h1, h2, name);
        lemma_mix_injective(hash_bytes(h1, name), hash_bytes(h2, name), items.last().1, 0);
    }
}

/// Content that differs from other content of its length in exactly one
/// byte has another change hash, and so has the same content under another
/// kind.
pub proof fn byte_change_changes_hash(kind: u8, other: u8, data: Seq<u8>, i: int, b: u8)
    requires
        0 <= i < data.len(),
        b != data[i],
    ensures
        content_hash_of(kind, data.update(i, b)) != content_hash_of(kind, data),
        other != kind ==> content_hash_of(other, data) != content_hash_of(kind, data),
{
    lemma_byte_change(data, i, b);
    let h1 = hash_bytes(FNV_BASIS, data);
    let h2 = hash_bytes(FNV_BASIS, data.update(i, b));
    let k = kind as u64;
    let o = other as u64;
    assert(h1 ^ k == h2 ^ k ==> h1 == h2) by (bit_vector);
    assert(h1 ^ k == h1 ^ o ==> k == o) by (bit_vector);
}

proof fn lemma_byte_change(data: Seq<u8>, i: int, b: u8)
    requires
        0 <= i < data.len(),
        b != data[i],
    ensures
        hash_bytes(FNV_BASIS, data.update(i, b)) != hash_bytes(FNV_BASIS, data),
    decreases data.len(),
{
    let changed = data.update(i, b);
    let h1 = hash_bytes(FNV_BASIS, data.drop_last());
    let h2 = hash_bytes(FNV_BASIS, changed.drop_last());
    if i == data.len() - 1 {
        assert(changed.drop_last() =~= data.drop_last());
        lemma_mix_injective(h1, h2, data[i] as u64, b as u64);
    } else {
        assert(changed.drop_last() =~= data.drop_last().update(i, b));
        lemma_byte_change(data.drop_last(), i, b);
        lemma_mix_injective(h1, h2, data.last() as u64, 0);
    }
}

} // verus!
