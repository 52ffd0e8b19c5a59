//! Content fingerprints.

use vstd::prelude::*;
use vstd::string::*;

verus! {

/// The BLAKE3 digest of `data`, written as lowercase hexadecimal text.
pub uninterp spec fn blake3_hex(data: Seq<u8>) -> Seq<char>;

/// Number of characters in the hexadecimal form of a digest.
pub const HEX_DIGEST_LEN: usize = 64;

/// The hash that stands for "no file": the state in which a file is absent.
/// It is shorter than any digest, so that no content has it.
pub const BLANK_FILE_HASH: &'static str = "null";

/// Whether `c` is a digit of lowercase hexadecimal.
pub open spec fn is_lower_hex(c: char) -> bool {
    ('0' <= c && c <= '9') || ('a' <= c && c <= 'f')
}

/// The reserved hash as a sequence of characters.
pub open spec fn sentinel() -> Seq<char> {
    BLANK_FILE_HASH@
}

/// The hash of one side of a file: of its content, or the reserved hash
/// where that side has no file.
pub open spec fn side_hash(content: Option<Seq<u8>>) -> Seq<char> {
    match content {
        Some(data) => blake3_hex(data),
        None => sentinel(),
    }
}

/// The content behind an optional slice, as a mathematical value.
pub open spec fn content_view(content: Option<&[u8]>) -> Option<Seq<u8>> {
    match content {
        Some(data) => Some(data@),
        None => None,
    }
}

/// Fingerprint of `data`.
///
/// Calls `blake3::hash` and formats the digest as `blake3::Hash` displays it:
/// the 32 digest bytes as 64 lowercase hexadecimal characters.
#[verifier::external_body]
pub(crate) fn digest_hex(data: &[u8]) -> (hex: String)
    ensures
        hex@ == blake3_hex(data@),
        hex@.len() == HEX_DIGEST_LEN,
        forall|i: int| 0 <= i < hex@.len() ==> is_lower_hex(#[trigger] hex@[i]),
{
    format!("{}", blake3::hash(data))
}

/// The hash of one side of a file. The hash of a file that exists is never
/// the reserved one.
pub fn content_hash(content: Option<&[u8]>) -> (hash: String)
    ensures
        hash@ == side_hash(content_view(content)),
        content is Some ==> hash@ != sentinel(),
        content is Some ==> hash@.len() == HEX_DIGEST_LEN,
        content is Some ==> forall|i: int| 0 <= i < hash@.len() ==> is_lower_hex(#[trigger] hash@[i]),
{
    proof {
        reveal_strlit("null");
    }
    match content {
        Some(data) => digest_hex(data),
        None => String::from_str(BLANK_FILE_HASH),
    }
}

} // verus!
