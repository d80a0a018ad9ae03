//! Turning an entry's stored bytes into its content.

use crate::error::ZipError;
use std::io::Read;
use vstd::prelude::*;

verus! {

/// Compression method 0: the bytes are the content.
pub const METHOD_STORE: u16 = 0;

/// Compression method 8: the bytes are a raw deflate stream.
pub const METHOD_DEFLATE: u16 = 8;

/// `std::io::Error`, the error of the deflate decoder's reader. Nothing is
/// known of a value of it.
#[verifier::external_type_specification]
#[verifier::external_body]
pub struct ExIoError(std::io::Error);

/// What flate2's deflate decoder makes of `compressed`: the decoded bytes, or
/// `None` where it rejects them as corrupt or incomplete.
pub uninterp spec fn inflated(compressed: Seq<u8>) -> Option<Seq<u8>>;

/// Runs `flate2::read::DeflateDecoder` over `compressed` to its end. What comes
/// out depends on the bytes alone: the decoder reads them from memory and
/// keeps no state between calls.
#[verifier::external_body]
fn inflate(compressed: &[u8]) -> (out: Result<Vec<u8>, std::io::Error>)
    ensures
        out matches Ok(bytes) ==> inflated(compressed@) == Some(bytes@),
        out is Err ==> inflated(compressed@) is None,
{
    let mut bytes = Vec::new();
    let mut decoder = flate2::read::DeflateDecoder::new(compressed);
    match decoder.read_to_end(&mut bytes) {
        Ok(_) => Ok(bytes),
        Err(e) => Err(e),
    }
}

/// What decompression makes of stored bytes.
pub enum Unpacked {
    /// The content.
    Content(Seq<u8>),
    /// The deflate decoder rejected the bytes.
    Corrupt,
    /// The method is neither store nor deflate.
    Unsupported(u16),
}

/// What decompression by `method` makes of `bytes`: store leaves them as they
/// are, deflate inflates them, and any other method is unsupported.
pub open spec fn unpacked(method: u16, bytes: Seq<u8>) -> Unpacked {
    if method == METHOD_STORE {
        Unpacked::Content(bytes)
    } else if method == METHOD_DEFLATE {
        match inflated(bytes) {
            Some(content) => Unpacked::Content(content),
            None => Unpacked::Corrupt,
        }
    } else {
        Unpacked::Unsupported(method)
    }
}

/// Whether `out` reports `expected`: the content itself, or the error that
/// stands for the failure.
pub open spec fn delivers(out: Result<Vec<u8>, ZipError>, expected: Unpacked) -> bool {
    match expected {
        Unpacked::Content(content) => out matches Ok(data) && data@ == content,
        Unpacked::Corrupt => out matches Err(ZipError::Decompression(_)),
        Unpacked::Unsupported(method) => out == Err::<Vec<u8>, ZipError>(
            ZipError::UnsupportedMethod(method),
        ),
    }
}

/// Routes stored bytes to the decoder their method names: store hands them
/// back unchanged, deflate inflates them, and any other method is refused.
pub fn decompress(method: u16, bytes: Vec<u8>) -> (out: Result<Vec<u8>, ZipError>)
    ensures
        delivers(out, unpacked(method, bytes@)),
{
    if method == METHOD_STORE {
        Ok(bytes)
    } else if method == METHOD_DEFLATE {
        match inflate(bytes.as_slice()) {
            Ok(data) => Ok(data),
            Err(e) => Err(ZipError::Decompression(e.to_string())),
        }
    } else {
        Err(ZipError::UnsupportedMethod(method))
    }
}

} // verus!
