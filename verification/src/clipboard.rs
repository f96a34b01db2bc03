//! Content hashing for the history store.

use vstd::prelude::*;
use sha2::Digest;

verus! {

/// The SHA-256 digest of the UTF-8 bytes of a text, written as lower-case
/// hexadecimal digits.
pub uninterp spec fn sha256_hex(content: Seq<char>) -> Seq<char>;

/// One of `0`-`9` and `a`-`f`.
pub open spec fn is_lower_hex_digit(c: char) -> bool {
    ('0' <= c && c <= '9') || ('a' <= c && c <= 'f')
}

/// Feeds the bytes of `content` to `sha2::Sha256` (`Digest::new`, `update`,
/// `finalize`) and formats the 32 bytes of output with `{:x}`, which
/// generic-array writes as two lower-case hexadecimal digits per byte. The
/// digest is a function of the content alone; it is known here by its name,
/// [`sha256_hex`], and by its shape.
#[verifier::external_body]
fn sha256_hex_digest(content: &str) -> (r: String)
    ensures
        r@ == sha256_hex(content@),
        r@.len() == 64,
        forall|i: int| 0 <= i < r@.len() ==> is_lower_hex_digit(#[trigger] r@[i]),
{
    let mut hasher = sha2::Sha256::new();
    hasher.update(content.as_bytes());
    format!("{:x}", hasher.finalize())
}

/// The content hash under which the store files a text.
pub fn hash_content(content: &str) -> (r: String)
    ensures
        r@ == sha256_hex(content@),
        r@.len() == 64,
        forall|i: int| 0 <= i < r@.len() ==> is_lower_hex_digit(#[trigger] r@[i]),
{
    sha256_hex_digest(content)
}

/// Equal contents have equal hashes: hashing is a function of the content.
pub proof fn lemma_hash_deterministic(a: Seq<char>, b: Seq<char>)
    requires
        a == b,
    ensures
        sha256_hex(a) == sha256_hex(b),
{
}

} // verus!
