//! What can go wrong while decoding.

use crate::text::decimal;
use crate::text::push_decimal;
use vstd::prelude::*;
use vstd::string::StringExecFns;

verus! {

/// Why decoding stopped. Every error is final: the stream position is lost,
/// and the decoder reports no further entries.
#[derive(Debug, PartialEq, Eq)]
pub enum ZipError {
    /// The source ended while more bytes were needed.
    UnexpectedEof,
    /// Four bytes that are no known signature stood where one was expected;
    /// they are carried in lower-case hexadecimal.
    InvalidSignature(String),
    /// The entry's compression method is neither store (0) nor deflate (8).
    UnsupportedMethod(u16),
    /// No data descriptor was found within the scan limit.
    DescriptorNotFound,
    /// The deflate decoder rejected the entry's bytes; its message is carried.
    Decompression(String),
}

impl ZipError {
    /// The error in words.
    pub open spec fn spec_message(&self) -> Seq<char> {
        match self {
            ZipError::UnexpectedEof => "Unexpected end of stream"@,
            ZipError::InvalidSignature(sig) => "Invalid signature: "@ + sig@,
            ZipError::UnsupportedMethod(method) => "Decompression error: Unsupported compression method: "@
                + decimal(*method as nat),
            ZipError::DescriptorNotFound => "Decompression error: Data descriptor not found within reasonable limit"@,
            ZipError::Decompression(reason) => "Decompression error: "@ + reason@,
        }
    }

    /// The error in words, for people.
    pub fn message(&self) -> (text: String)
        ensures
            text@ == self.spec_message(),
    {
        match self {
            ZipError::UnexpectedEof => "Unexpected end of stream".to_owned(),
            ZipError::InvalidSignature(sig) => {
                let mut text = "Invalid signature: ".to_owned();
                text.append(sig.as_str());
                text
            },
            ZipError::UnsupportedMethod(method) => {
                let mut text = "Decompression error: Unsupported compression method: ".to_owned();
                push_decimal(&mut text, *method as u64);
                text
            },
            ZipError::DescriptorNotFound => "Decompression error: Data descriptor not found within reasonable limit".to_owned(),
            ZipError::Decompression(reason) => {
                let mut text = "Decompression error: ".to_owned();
                text.append(reason.as_str());
                text
            },
        }
    }
}

} // verus!
