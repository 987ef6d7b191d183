//! BLAKE3 digests, the content addresses of the service.
use vstd::prelude::*;

verus! {

/// The BLAKE3 hash of `data`, written as `blake3::Hash::to_hex` writes it.
pub uninterp spec fn blake3_hex(data: Seq<u8>) -> Seq<char>;

/// Whether `c` is a lowercase hexadecimal digit.
pub open spec fn is_lower_hex(c: char) -> bool {
    ('0' <= c && c <= '9') || ('a' <= c && c <= 'f')
}

/// Calls `blake3::hash` and renders the digest with `Hash::to_hex` and
/// `to_string`. The result is a function of `data` alone, named
/// `blake3_hex`; the crate's source shows that `to_hex` writes the 32 bytes
/// of the digest as 64 lowercase hexadecimal digits.
#[verifier::external_body]
fn blake3_hex_digest(data: &[u8]) -> (r: String)
    ensures
        r@ == blake3_hex(data@),
        r@.len() == 64,
        forall|i: int| 0 <= i < r@.len() ==> is_lower_hex(#[trigger] r@[i]),
{
    blake3::hash(data).to_hex().to_string()
}

/// The BLAKE3 digest of `data`, in lowercase hexadecimal.
pub fn hash_bytes(data: &[u8]) -> (r: String)
    ensures
        r@ == blake3_hex(data@),
        r@.len() == 64,
        forall|i: int| 0 <= i < r@.len() ==> is_lower_hex(#[trigger] r@[i]),
{
    blake3_hex_digest(data)
}

/// The BLAKE3 digest of the UTF-8 bytes of `text`, in lowercase hexadecimal.
pub fn hash_text(text: &str) -> (r: String)
    ensures
        r@ == blake3_hex(vstd::utf8::encode_utf8(text@)),
        r@.len() == 64,
        forall|i: int| 0 <= i < r@.len() ==> is_lower_hex(#[trigger] r@[i]),
{
    blake3_hex_digest(text.as_bytes())
}

} // verus!
