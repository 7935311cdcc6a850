//! The entry description handed over by the directory layer, and the fixed
//! part of the local file header that precedes an entry's payload.
//!
//! The layout is that of `zip_format::Header` behind its four signature
//! bytes: thirty bytes in all, of which the last four are the length of the
//! entry's name and the length of its extra metadata.

use vstd::prelude::*;
use crate::error::NotAnArchive;

verus! {

/// Method code of an entry whose bytes are kept verbatim.
pub const STORED: u16 = 0;

/// Method code of an entry packed with deflate.
pub const DEFLATE: u16 = 8;

/// Length of the fixed part of a local file header, signature included.
pub const LOCAL_HEADER_LEN: usize = 30;

/// The four signature bytes `PK\x03\x04`, read as a little-endian number.
pub const LOCAL_HEADER_SIGNATURE: u32 = 0x04034b50;

/// What the archive's directory says of one entry.
#[derive(Debug, Clone, Copy, PartialEq, Eq)]
pub struct FileHeader {
    /// Compression method code.
    pub method: u16,
    /// Offset of the entry's local file header in the storage.
    pub start: u64,
    /// Declared length of the entry once unpacked.
    pub len: u64,
}

/// The little-endian 16-bit number at `bytes[at..at + 2]`.
pub open spec fn le_u16(bytes: Seq<u8>, at: int) -> int {
    bytes[at] + 0x100 * bytes[at + 1]
}

/// The little-endian 32-bit number at `bytes[at..at + 4]`.
pub open spec fn le_u32(bytes: Seq<u8>, at: int) -> int {
    bytes[at] + 0x100 * bytes[at + 1] + 0x1_0000 * bytes[at + 2] + 0x100_0000 * bytes[at + 3]
}

/// `bytes` begins with the fixed part of a local file header.
pub open spec fn is_local_header(bytes: Seq<u8>) -> bool {
    bytes.len() >= LOCAL_HEADER_LEN && le_u32(bytes, 0) == LOCAL_HEADER_SIGNATURE
}

/// Length of the entry name announced by a local file header.
pub open spec fn name_len(bytes: Seq<u8>) -> int {
    le_u16(bytes, 26)
}

/// Length of the extra metadata announced by a local file header.
pub open spec fn metadata_len(bytes: Seq<u8>) -> int {
    le_u16(bytes, 28)
}

/// Distance from the end of the fixed part of a local file header to the
/// first byte of the payload.
pub open spec fn payload_gap(bytes: Seq<u8>) -> int {
    name_len(bytes) + metadata_len(bytes)
}

/// The little-endian 16-bit number that `bytes` holds at `at`.
fn read_le_u16(bytes: &[u8], at: usize) -> (n: u16)
    requires
        at + 2 <= bytes@.len(),
    ensures
        n == le_u16(bytes@, at as int),
{
    bytes[at] as u16 + 0x100 * (bytes[at + 1] as u16)
}

/// The little-endian 32-bit number that `bytes` holds at `at`.
fn read_le_u32(bytes: &[u8], at: usize) -> (n: u32)
    requires
        at + 4 <= bytes@.len(),
    ensures
        n == le_u32(bytes@, at as int),
{
    bytes[at] as u32 + 0x100 * (bytes[at + 1] as u32) + 0x1_0000 * (bytes[at + 2] as u32)
        + 0x100_0000 * (bytes[at + 3] as u32)
}

/// Checks the fixed part of a local file header and tells how many bytes lie
/// between it and the payload.
pub fn payload_skip(prefix: &[u8]) -> (r: Result<i64, NotAnArchive>)
    ensures
        r is Ok <==> is_local_header(prefix@),
        r matches Ok(skip) ==> skip == payload_gap(prefix@),
{
    if prefix.len() < LOCAL_HEADER_LEN || read_le_u32(prefix, 0) != LOCAL_HEADER_SIGNATURE {
        return Err(NotAnArchive);
    }
    let name = read_le_u16(prefix, 26);
    let metadata = read_le_u16(prefix, 28);
    Ok(name as i64 + metadata as i64)
}

/// A local file header begins with the bytes `P`, `K`, 3 and 4.
pub proof fn lemma_signature_bytes(bytes: Seq<u8>)
    requires
        bytes.len() >= LOCAL_HEADER_LEN,
    ensures
        is_local_header(bytes) <==> bytes[0] == 0x50 && bytes[1] == 0x4b && bytes[2] == 0x03
            && bytes[3] == 0x04,
{
}

} // verus!
