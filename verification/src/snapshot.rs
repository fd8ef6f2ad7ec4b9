//! Storage keys of failure artifacts.

use crate::request::Request;
use crate::text::{digit_char, hex, hex16, joined};
use std::hash::{Hash, Hasher};
use vstd::prelude::*;

verus! {

/// The hash of a text by the standard hasher with its fixed keys.
pub uninterp spec fn default_hash(text: Seq<char>) -> u64;

/// `std::collections::hash_map::DefaultHasher::new`, fed with a string: the hash of the text.
#[verifier::external_body]
fn hash_text(text: &str) -> (r: u64)
    ensures
        r == default_hash(text@),
{
    let mut hasher = std::collections::hash_map::DefaultHasher::new();
    text.hash(&mut hasher);
    hasher.finish()
}

/// A failure-time artifact reloaded from storage.
#[derive(Debug, PartialEq, Eq)]
pub struct ErrorSnapshot {
    /// MIME content type of the captured artifact.
    pub content_type: String,
    /// Captured artifact bytes.
    pub bytes: Vec<u8>,
}

/// The base key of a request's artifacts.
pub open spec fn base_key_of(hash: u64) -> Seq<char> {
    "ERROR_SNAPSHOT_"@ + hex(hash as nat, 16)
}

/// The base key of artifacts under a hash.
pub fn base_key_for(hash: u64) -> (r: String)
    ensures
        r@ == base_key_of(hash),
{
    joined("ERROR_SNAPSHOT_", hex16(hash).as_str())
}

/// Names the artifacts of failed requests.
#[derive(Clone, Copy, Debug)]
pub struct ErrorSnapshotter;

impl ErrorSnapshotter {
    /// Returns the deterministic base storage key for `request`.
    pub fn base_key(request: &Request) -> (r: String)
        ensures
            r@ == base_key_of(default_hash(request.unique_key@)),
    {
        base_key_for(hash_text(request.unique_key.as_str()))
    }

    /// Returns the storage key of an artifact with a suffix.
    pub fn capture_key(request: &Request, suffix: &str) -> (r: String)
        ensures
            r@ == base_key_of(default_hash(request.unique_key@)) + seq!['.'] + suffix@,
    {
        let mut key: String = ErrorSnapshotter::base_key(request);
        key.push('.');
        key.append(suffix);
        assert(key@ =~= base_key_of(default_hash(request.unique_key@)) + seq!['.'] + suffix@);
        key
    }
}

/// Different hashes give different base keys.
pub proof fn base_keys_tell_hashes_apart(a: u64, b: u64)
    requires
        a != b,
    ensures
        base_key_of(a) != base_key_of(b),
{
    if base_key_of(a) == base_key_of(b) {
        let prefix = "ERROR_SNAPSHOT_"@;
        assert(hex(a as nat, 16) =~= base_key_of(a).skip(prefix.len() as int));
        assert(hex(b as nat, 16) =~= base_key_of(b).skip(prefix.len() as int));
        assert(power16(16) == 0x1_0000_0000_0000_0000) by {
            reveal_with_fuel(power16, 17);
        }
        lemma_hex_injective(a as nat, b as nat, 16);
    }
}

/// Sixteen to the power of `n`.
pub open spec fn power16(n: nat) -> nat
    decreases n,
{
    if n == 0 {
        1
    } else {
        16 * power16((n - 1) as nat)
    }
}

pub(crate) proof fn lemma_hex_injective(a: nat, b: nat, width: nat)
    requires
        a < power16(width),
        b < power16(width),
        hex(a, width) == hex(b, width),
    ensures
        a == b,
    decreases width,
{
    if width > 0 {
        let w = (width - 1) as nat;
        let x = hex(a / 16, w);
        let y = hex(b / 16, w);
        assert(hex(a, width) == x.push(digit_char(a % 16)));
        assert(hex(b, width) == y.push(digit_char(b % 16)));
        assert(hex(a, width).drop_last() =~= x);
        assert(hex(b, width).drop_last() =~= y);
        assert(x.push(digit_char(a % 16)).last() == digit_char(a % 16));
        assert(y.push(digit_char(b % 16)).last() == digit_char(b % 16));
        assert(digit_char(a % 16) == digit_char(b % 16));
        lemma_hex_injective(a / 16, b / 16, w);
    }
}

/// The key of a snapshot is a fixed word and the hash in sixteen digits.
pub proof fn snapshot_keys_have_one_form(hash: u64)
    ensures
        base_key_of(hash).len() == 31,
        base_key_of(hash).subrange(0, 15) == "ERROR_SNAPSHOT_"@,
        base_key_of(hash).subrange(15, 31) == hex(hash as nat, 16),
{
    reveal_strlit("ERROR_SNAPSHOT_");
    crate::text::hexadecimal_digits(hash as nat, 0, 16);
    assert(base_key_of(hash).subrange(0, 15) =~= "ERROR_SNAPSHOT_"@);
    assert(base_key_of(hash).subrange(15, 31) =~= hex(hash as nat, 16));
}

} // verus!
