//! Content hashes, written `sha256:` and sixty-four hexadecimal digits.
use crate::outside::{hex_encode, hex_of, sha256, sha256_of};
use crate::text::cat;
use vstd::prelude::*;
use vstd::string::*;
use vstd::utf8::encode_utf8;

verus! {

/// The content hash of a sequence of bytes, as text.
pub open spec fn hash_of(bytes: Seq<u8>) -> Seq<char> {
    "sha256:"@ + hex_of(sha256_of(bytes))
}

/// The content hash of a text: of its UTF-8 bytes.
pub open spec fn text_hash(s: Seq<char>) -> Seq<char> {
    hash_of(encode_utf8(s))
}

/// The content hash of `bytes`.
pub fn hash_bytes(bytes: &[u8]) -> (r: String)
    ensures
        r@ == hash_of(bytes@),
{
    let digest = sha256(bytes);
    let digits = hex_encode(digest.as_slice());
    cat("sha256:", digits.as_str())
}

/// The content hash of a text.
pub fn hash_text(s: &str) -> (r: String)
    ensures
        r@ == text_hash(s@),
{
    hash_bytes(s.as_bytes())
}

} // verus!
