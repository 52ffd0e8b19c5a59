//! Zstandard compression of whole artifacts.

use vstd::prelude::*;

verus! {

/// The Zstandard frame that compressing `data` at the default level gives,
/// or `None` if the encoder fails on it.
pub uninterp spec fn zstd_frame(data: Seq<u8>) -> Option<Seq<u8>>;

/// The content of a Zstandard frame, or `None` if `frame` is not one.
pub uninterp spec fn zstd_content(frame: Seq<u8>) -> Option<Seq<u8>>;

/// Compresses `data`.
///
/// Calls `zstd::stream::copy_encode` with level 0, which stands for the
/// default level, reading from `data` and writing into a fresh vector. The
/// call reads nothing but `data` and the level, so whether it succeeds and
/// what it writes depend on `data` alone. When it succeeds the vector holds
/// the frame; an error of the encoder is handed back as its message.
#[verifier::external_body]
pub(crate) fn compress(data: &[u8]) -> (r: Result<Vec<u8>, String>)
    ensures
        match r {
            Ok(frame) => zstd_frame(data@) == Some(frame@),
            Err(_) => zstd_frame(data@) is None,
        },
{
    let mut frame = Vec::new();
    match zstd::stream::copy_encode(data, &mut frame, 0) {
        Ok(()) => Ok(frame),
        Err(error) => Err(error.to_string()),
    }
}

/// Decompresses `frame`.
///
/// Calls `zstd::stream::copy_decode`, reading from `frame` and writing into
/// a fresh vector. The call succeeds exactly on input in the frame format and
/// then the vector holds the content; otherwise the decoder's message is
/// handed back.
#[verifier::external_body]
pub(crate) fn decompress(frame: &[u8]) -> (r: Result<Vec<u8>, String>)
    ensures
        match r {
            Ok(content) => zstd_content(frame@) == Some(content@),
            Err(_) => zstd_content(frame@) is None,
        },
{
    let mut content = Vec::new();
    match zstd::stream::copy_decode(frame, &mut content) {
        Ok(()) => Ok(content),
        Err(error) => Err(error.to_string()),
    }
}

} // verus!
