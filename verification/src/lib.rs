//! Incremental decoding of a ZIP archive that arrives as a stream of chunks.
//!
//! The decoder never sees the whole archive and never reads a central
//! directory. It is driven from outside: the caller pulls chunks from wherever
//! the bytes come from, hands them over, and asks for the next entry.

pub mod circular_buffer;
pub mod codec;
pub mod decoder;
pub mod error;
pub mod framing;
pub mod header;
pub mod progress_bar;
pub mod read_buffer;
pub mod text;

pub use decoder::MuyZipido;
pub use decoder::RawEntry;
pub use decoder::Step;
pub use decoder::ZipEntry;
pub use error::ZipError;
