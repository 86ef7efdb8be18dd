//! The hash primitive: SHA-256 over a piece of text, rendered as lowercase
//! hexadecimal. The digest is deterministic and fixed-length, so the tree
//! builder can treat it as a pure function of the input.

use sha2::{Digest, Sha256};
use vstd::prelude::*;

verus! {

/// The lowercase hexadecimal rendering of the SHA-256 digest of the UTF-8
/// bytes of `data`. The digest depends on the input alone, so it can be
/// named here without being written out; the contracts of the tree builder
/// are stated in terms of this name.
pub uninterp spec fn sha256_hex_of(data: Seq<char>) -> Seq<char>;

/// Relies on sha2's `Sha256` hasher (`Digest::new`, `Digest::update`,
/// `Digest::finalize`) for the digest of the input's UTF-8 bytes, and on the
/// `LowerHex` rendering of its 32-byte output as exactly 64 lowercase
/// hexadecimal characters.
#[verifier::external_body]
pub(crate) fn hash_data(data: &str) -> (r: String)
    ensures
        r@ == sha256_hex_of(data@),
        r@.len() == 64,
{
    let mut hasher = Sha256::new();
    hasher.update(data.as_bytes());
    let result = hasher.finalize();
    format!("{:x}", result)
}

} // verus!
