//! FNV-1a style folding used by snapshot digests for client/server
//! divergence detection.

use vstd::prelude::*;
use vstd::utf8::encode_utf8;

verus! {

pub const FNV_OFFSET_BASIS: u64 = 0xcbf29ce484222325;

pub const FNV_PRIME: u64 = 0x100000001b3;

/// One folding step: xor the value in, then multiply by the FNV prime
/// (wrapping).
pub open spec fn fnv_step(hash: u64, value: u64) -> u64 {
    vstd::wrapping::u64_specs::wrapping_mul(hash ^ value, FNV_PRIME)
}

/// Folds every byte of `bytes`, in order.
pub open spec fn fnv_bytes(hash: u64, bytes: Seq<u8>) -> u64
    decreases bytes.len(),
{
    if bytes.len() == 0 {
        hash
    } else {
        fnv_step(fnv_bytes(hash, bytes.drop_last()), bytes.last() as u64)
    }
}

/// Folds an optional text: a 0 marker when absent; a 1 marker then its
/// UTF-8 bytes when present.
pub open spec fn fnv_option_text(hash: u64, value: Option<Seq<char>>) -> u64 {
    match value {
        Some(text) => fnv_bytes(fnv_step(hash, 1), encode_utf8(text)),
        None => fnv_step(hash, 0),
    }
}

/// Folds the texts of a list, in order, each as a present optional text.
pub open spec fn fnv_texts(hash: u64, values: Seq<Seq<char>>) -> u64
    decreases values.len(),
{
    if values.len() == 0 {
        hash
    } else {
        fnv_option_text(fnv_texts(hash, values.drop_last()), Some(values.last()))
    }
}

/// Folds an optional number: a 0 marker when absent; a 1 marker then the
/// value when present.
pub open spec fn fnv_option_u64(hash: u64, value: Option<u64>) -> u64 {
    match value {
        Some(v) => fnv_step(fnv_step(hash, 1), v),
        None => fnv_step(hash, 0),
    }
}

/// Folds one value into the running hash.
pub fn hash_u64(hash: &mut u64, value: u64)
    ensures
        *final(hash) == fnv_step(*old(hash), value),
{
    *hash = (*hash ^ value).wrapping_mul(FNV_PRIME);
}

/// Folds a flag as 0 or 1.
pub fn hash_bool(hash: &mut u64, value: bool)
    ensures
        *final(hash) == fnv_step(*old(hash), if value { 1 } else { 0 }),
{
    hash_u64(hash, if value { 1 } else { 0 });
}

/// Folds an optional small number.
pub fn hash_option_u8(hash: &mut u64, value: Option<u8>)
    ensures
        *final(hash) == fnv_option_u64(
            *old(hash),
            match value {
                Some(v) => Some(v as u64),
                None => None,
            },
        ),
{
    match value {
        Some(value) => {
            hash_u64(hash, 1);
            hash_u64(hash, value as u64);
        },
        None => hash_u64(hash, 0),
    }
}

/// Folds an optional number.
pub fn hash_option_u64(hash: &mut u64, value: Option<u64>)
    ensures
        *final(hash) == fnv_option_u64(*old(hash), value),
{
    match value {
        Some(value) => {
            hash_u64(hash, 1);
            hash_u64(hash, value);
        },
        None => hash_u64(hash, 0),
    }
}

/// Folds the UTF-8 bytes of a text.
fn hash_bytes(hash: &mut u64, bytes: &[u8])
    ensures
        *final(hash) == fnv_bytes(*old(hash), bytes@),
{
    let ghost start = *hash;
    let mut i: usize = 0;
    proof {
        assert(bytes@.take(0) =~= Seq::<u8>::empty());
    }
    while i < bytes.len()
        invariant
            i <= bytes@.len(),
            *hash == fnv_bytes(start, bytes@.take(i as int)),
        decreases bytes.len() - i,
    {
        proof {
            assert(bytes@.take(i + 1).drop_last() =~= bytes@.take(i as int));
        }
        hash_u64(hash, bytes[i] as u64);
        i = i + 1;
    }
    proof {
        assert(bytes@.take(i as int) =~= bytes@);
    }
}

/// Folds an optional text.
pub fn hash_option_str(hash: &mut u64, value: Option<&str>)
    ensures
        *final(hash) == fnv_option_text(
            *old(hash),
            match value {
                Some(s) => Some(s@),
                None => None,
            },
        ),
{
    match value {
        Some(value) => {
            hash_u64(hash, 1);
            hash_bytes(hash, value.as_bytes());
        },
        None => hash_u64(hash, 0),
    }
}

/// Folds a list of texts: its length first, then each text.
pub fn hash_string_list(hash: &mut u64, values: &Vec<String>)
    ensures
        *final(hash) == fnv_texts(
            fnv_step(*old(hash), values@.len() as u64),
            values@.map_values(|v: String| v@),
        ),
{
    hash_u64(hash, values.len() as u64);
    let ghost start = *hash;
    let ghost texts = values@.map_values(|v: String| v@);
    let mut i: usize = 0;
    proof {
        assert(texts.take(0) =~= Seq::<Seq<char>>::empty());
    }
    while i < values.len()
        invariant
            i <= values@.len(),
            texts == values@.map_values(|v: String| v@),
            *hash == fnv_texts(start, texts.take(i as int)),
        decreases values.len() - i,
    {
        proof {
            assert(texts.take(i + 1).drop_last() =~= texts.take(i as int));
        }
        hash_option_str(hash, Some(values[i].as_str()));
        i = i + 1;
    }
    proof {
        assert(texts.take(i as int) =~= texts);
    }
}

} // verus!
