//! A Merkle-root commitment over an ordered sequence of leaves.
//!
//! Each leaf is hashed with SHA-256 to form the bottom layer; layers are then
//! folded pairwise, combining two child digests by hashing the concatenation
//! of their lowercase hexadecimal renderings, until a single root digest
//! remains. An odd-length layer repeats its last digest before pairing.
//!
//! Note that the duplicate-last-digest padding is a known weak variant: it
//! cannot tell a layer with an odd number of digests from one that really
//! ends in two equal digests. It is kept for compatibility with roots already
//! derived this way; do not rely on it where that ambiguity matters.

pub mod hashing;
pub mod tree;

pub use tree::merkle_tree;
pub use tree::MerkleError;
