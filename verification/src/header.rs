//! The fixed-layout records of the local part of an archive: the 4-byte
//! signatures and the 26 bytes of fields that follow a local-file signature.

use vstd::prelude::*;

verus! {

/// Length of a signature or of the data-descriptor marker.
pub const SIGNATURE_LEN: usize = 4;

/// Length of the fixed fields that follow a local-file signature.
pub const FIXED_FIELDS_LEN: usize = 26;

/// Length of what follows the data-descriptor marker: CRC and the two sizes.
pub const DESCRIPTOR_TAIL_LEN: usize = 12;

/// Bit of the flags field that says the sizes are not known in advance and a
/// data descriptor follows the payload.
pub const FLAG_DATA_DESCRIPTOR: u16 = 0x08;

/// The little-endian 16-bit value at `at`.
pub open spec fn le16(s: Seq<u8>, at: int) -> u16 {
    (s[at] as int + 256 * (s[at + 1] as int)) as u16
}

/// The little-endian 32-bit value at `at`.
pub open spec fn le32(s: Seq<u8>, at: int) -> u32 {
    (s[at] as int + 256 * (s[at + 1] as int) + 65536 * (s[at + 2] as int) + 16777216 * (s[at
        + 3] as int)) as u32
}

/// Whether `s` is exactly the four given bytes.
pub open spec fn is_quad(s: Seq<u8>, a: u8, b: u8, c: u8, d: u8) -> bool {
    s.len() == 4 && s[0] == a && s[1] == b && s[2] == c && s[3] == d
}

/// What a 4-byte signature announces.
#[derive(Clone, Copy, Debug, PartialEq, Eq, Structural)]
pub enum SignatureKind {
    /// `50 4B 03 04`: a local file header follows.
    LocalFile,
    /// `50 4B 01 02`: the central directory begins.
    CentralDirectory,
    /// `50 4B 05 06`: the end-of-central-directory record.
    EndOfCentralDirectory,
    /// Anything else.
    Unknown,
}

/// The kind of the signature `s`.
pub open spec fn signature_kind(s: Seq<u8>) -> SignatureKind {
    if is_quad(s, 0x50, 0x4b, 0x03, 0x04) {
        SignatureKind::LocalFile
    } else if is_quad(s, 0x50, 0x4b, 0x01, 0x02) {
        SignatureKind::CentralDirectory
    } else if is_quad(s, 0x50, 0x4b, 0x05, 0x06) {
        SignatureKind::EndOfCentralDirectory
    } else {
        SignatureKind::Unknown
    }
}

/// Whether `s` is the data-descriptor marker `50 4B 07 08`.
pub open spec fn is_descriptor_marker(s: Seq<u8>) -> bool {
    is_quad(s, 0x50, 0x4b, 0x07, 0x08)
}

/// The fields of a local file header.
#[derive(Clone, Copy, Debug, PartialEq, Eq, Structural)]
pub struct LocalFileHeader {
    pub version_needed: u16,
    pub flags: u16,
    pub compression: u16,
    pub mod_time: u16,
    pub mod_date: u16,
    pub crc32: u32,
    pub compressed_size: u32,
    pub uncompressed_size: u32,
    pub filename_len: u16,
    pub extra_len: u16,
}

/// The header that the first 26 bytes of `s` encode.
pub open spec fn header_of(s: Seq<u8>) -> LocalFileHeader {
    LocalFileHeader {
        version_needed: le16(s, 0),
        flags: le16(s, 2),
        compression: le16(s, 4),
        mod_time: le16(s, 6),
        mod_date: le16(s, 8),
        crc32: le32(s, 10),
        compressed_size: le32(s, 14),
        uncompressed_size: le32(s, 18),
        filename_len: le16(s, 22),
        extra_len: le16(s, 24),
    }
}

/// Byte `i` of `v`, counted from the low end.
pub open spec fn le_byte(v: u32, i: int) -> u8 {
    if i == 0 {
        (v % 256) as u8
    } else if i == 1 {
        (v / 256 % 256) as u8
    } else if i == 2 {
        (v / 65536 % 256) as u8
    } else {
        (v / 16777216 % 256) as u8
    }
}

/// The 26 bytes that encode the fields of `h`: each field low byte first, in
/// the order of the record.
pub open spec fn fields_bytes(h: LocalFileHeader) -> Seq<u8> {
    seq![
        le_byte(h.version_needed as u32, 0),
        le_byte(h.version_needed as u32, 1),
        le_byte(h.flags as u32, 0),
        le_byte(h.flags as u32, 1),
        le_byte(h.compression as u32, 0),
        le_byte(h.compression as u32, 1),
        le_byte(h.mod_time as u32, 0),
        le_byte(h.mod_time as u32, 1),
        le_byte(h.mod_date as u32, 0),
        le_byte(h.mod_date as u32, 1),
        le_byte(h.crc32, 0),
        le_byte(h.crc32, 1),
        le_byte(h.crc32, 2),
        le_byte(h.crc32, 3),
        le_byte(h.compressed_size, 0),
        le_byte(h.compressed_size, 1),
        le_byte(h.compressed_size, 2),
        le_byte(h.compressed_size, 3),
        le_byte(h.uncompressed_size, 0),
        le_byte(h.uncompressed_size, 1),
        le_byte(h.uncompressed_size, 2),
        le_byte(h.uncompressed_size, 3),
        le_byte(h.filename_len as u32, 0),
        le_byte(h.filename_len as u32, 1),
        le_byte(h.extra_len as u32, 0),
        le_byte(h.extra_len as u32, 1),
    ]
}

proof fn lemma_le16_of_bytes(s: Seq<u8>, at: int, v: u16)
    requires
        s[at] == le_byte(v as u32, 0),
        s[at + 1] == le_byte(v as u32, 1),
    ensures
        le16(s, at) == v,
{
}

proof fn lemma_le32_of_bytes(s: Seq<u8>, at: int, v: u32)
    requires
        s[at] == le_byte(v, 0),
        s[at + 1] == le_byte(v, 1),
        s[at + 2] == le_byte(v, 2),
        s[at + 3] == le_byte(v, 3),
    ensures
        le32(s, at) == v,
{
}

/// Decoding undoes encoding: the fields of any header, written out and read
/// back, are the same header. Bytes that follow the fields play no part.
pub proof fn lemma_fields_round_trip(h: LocalFileHeader, rest: Seq<u8>)
    ensures
        fields_bytes(h).len() == FIXED_FIELDS_LEN,
        header_of(fields_bytes(h) + rest) == h,
{
    let f = fields_bytes(h);
    let s = f + rest;
    assert(f.len() == 26);
    assert forall|i: int| 0 <= i < 26 implies s[i] == f[i] by {}
    lemma_le16_of_bytes(s, 0, h.version_needed);
    lemma_le16_of_bytes(s, 2, h.flags);
    lemma_le16_of_bytes(s, 4, h.compression);
    lemma_le16_of_bytes(s, 6, h.mod_time);
    lemma_le16_of_bytes(s, 8, h.mod_date);
    lemma_le32_of_bytes(s, 10, h.crc32);
    lemma_le32_of_bytes(s, 14, h.compressed_size);
    lemma_le32_of_bytes(s, 18, h.uncompressed_size);
    lemma_le16_of_bytes(s, 22, h.filename_len);
    lemma_le16_of_bytes(s, 24, h.extra_len);
}

impl LocalFileHeader {
    /// Whether the sizes are unknown and a data descriptor ends the payload.
    pub open spec fn streamed(&self) -> bool {
        self.flags & FLAG_DATA_DESCRIPTOR != 0
    }

    /// Whether the sizes are unknown and a data descriptor ends the payload.
    pub fn has_data_descriptor(&self) -> (flagged: bool)
        ensures
            flagged == self.streamed(),
    {
        (self.flags & FLAG_DATA_DESCRIPTOR) != 0
    }
}

fn read_u16_le(bytes: &[u8], at: usize) -> (value: u16)
    requires
        at + 2 <= bytes@.len(),
    ensures
        value == le16(bytes@, at as int),
{
    bytes[at] as u16 + 256 * (bytes[at + 1] as u16)
}

fn read_u32_le(bytes: &[u8], at: usize) -> (value: u32)
    requires
        at + 4 <= bytes@.len(),
    ensures
        value == le32(bytes@, at as int),
{
    bytes[at] as u32 + 256 * (bytes[at + 1] as u32) + 65536 * (bytes[at + 2] as u32) + 16777216
        * (bytes[at + 3] as u32)
}

/// Tells the three known signatures from anything else. A slice that is not
/// four bytes long is `Unknown`.
pub fn classify_signature(bytes: &[u8]) -> (kind: SignatureKind)
    ensures
        kind == signature_kind(bytes@),
{
    if bytes.len() != 4 || bytes[0] != 0x50 || bytes[1] != 0x4b {
        SignatureKind::Unknown
    } else if bytes[2] == 0x03 && bytes[3] == 0x04 {
        SignatureKind::LocalFile
    } else if bytes[2] == 0x01 && bytes[3] == 0x02 {
        SignatureKind::CentralDirectory
    } else if bytes[2] == 0x05 && bytes[3] == 0x06 {
        SignatureKind::EndOfCentralDirectory
    } else {
        SignatureKind::Unknown
    }
}

/// Whether `bytes` are the data-descriptor marker.
pub fn matches_descriptor_marker(bytes: &[u8]) -> (found: bool)
    ensures
        found == is_descriptor_marker(bytes@),
{
    bytes.len() == 4 && bytes[0] == 0x50 && bytes[1] == 0x4b && bytes[2] == 0x07 && bytes[3]
        == 0x08
}

/// Decodes the fixed fields of a local file header: the 26 bytes that follow
/// the signature, little-endian, at their fixed offsets. Bytes after the 26th
/// are not looked at.
pub fn decode_local_header(bytes: &[u8]) -> (header: LocalFileHeader)
    requires
        bytes@.len() >= FIXED_FIELDS_LEN,
    ensures
        header == header_of(bytes@),
{
    LocalFileHeader {
        version_needed: read_u16_le(bytes, 0),
        flags: read_u16_le(bytes, 2),
        compression: read_u16_le(bytes, 4),
        mod_time: read_u16_le(bytes, 6),
        mod_date: read_u16_le(bytes, 8),
        crc32: read_u32_le(bytes, 10),
        compressed_size: read_u32_le(bytes, 14),
        uncompressed_size: read_u32_le(bytes, 18),
        filename_len: read_u16_le(bytes, 22),
        extra_len: read_u16_le(bytes, 24),
    }
}

} // verus!
