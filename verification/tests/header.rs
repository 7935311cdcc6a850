use zip_entry::header::{payload_skip, DEFLATE, LOCAL_HEADER_LEN, LOCAL_HEADER_SIGNATURE, STORED};
use zip_entry::{Decompressor, FileHeader, MethodNotSupported, NotAnArchive, ReaderBuilder};

/// The fixed part of a local file header with the given two lengths.
fn fixed_part(name: u16, metadata: u16) -> Vec<u8> {
    let mut bytes = LOCAL_HEADER_SIGNATURE.to_le_bytes().to_vec();
    bytes.extend_from_slice(&[0xA5u8; 22]);
    bytes.extend_from_slice(&name.to_le_bytes());
    bytes.extend_from_slice(&metadata.to_le_bytes());
    bytes
}

#[test]
fn fixed_part_is_thirty_bytes() {
    assert_eq!(LOCAL_HEADER_LEN, 30);
    assert_eq!(fixed_part(0, 0).len(), LOCAL_HEADER_LEN);
    assert_eq!(&fixed_part(0, 0)[..4], b"PK\x03\x04");
}

#[test]
fn skip_is_the_sum_of_the_two_lengths() {
    assert_eq!(payload_skip(&fixed_part(0, 0)), Ok(0));
    assert_eq!(payload_skip(&fixed_part(11, 0)), Ok(11));
    assert_eq!(payload_skip(&fixed_part(0, 28)), Ok(28));
    assert_eq!(payload_skip(&fixed_part(261, 2)), Ok(263));
    assert_eq!(payload_skip(&fixed_part(0x1234, 0x00ff)), Ok(0x1234 + 0xff));
}

#[test]
fn skip_reads_the_lengths_low_byte_first() {
    let mut bytes = fixed_part(0, 0);
    bytes[26] = 0x01;
    bytes[27] = 0x02;
    bytes[28] = 0x03;
    bytes[29] = 0x04;
    assert_eq!(payload_skip(&bytes), Ok(0x0201 + 0x0403));
}

#[test]
fn skip_of_the_largest_lengths_does_not_wrap() {
    assert_eq!(payload_skip(&fixed_part(u16::MAX, u16::MAX)), Ok(131070));
}

#[test]
fn bytes_after_the_fixed_part_are_ignored() {
    let mut bytes = fixed_part(3, 4);
    bytes.extend_from_slice(b"abcdefgpayload");
    assert_eq!(payload_skip(&bytes), Ok(7));
}

#[test]
fn short_prefix_is_not_an_archive() {
    let bytes = fixed_part(1, 1);
    for len in 0..LOCAL_HEADER_LEN {
        assert_eq!(payload_skip(&bytes[..len]), Err(NotAnArchive), "len {len}");
    }
    assert_eq!(payload_skip(&bytes), Ok(2));
}

#[test]
fn other_signatures_are_not_an_archive() {
    for signature in [0x02014b50u32, 0x06054b50, 0x07064b50, 0x06064b50, 0x504b0304, 0] {
        let mut bytes = fixed_part(1, 1);
        bytes[..4].copy_from_slice(&signature.to_le_bytes());
        assert_eq!(payload_skip(&bytes), Err(NotAnArchive), "signature {signature:#x}");
    }
}

#[test]
fn skip_agrees_with_the_header_as_zip_format_reads_it() {
    for (name, metadata) in [(0u16, 0u16), (1, 0), (0, 1), (255, 256), (40000, 65535)] {
        let bytes = fixed_part(name, metadata);
        let header = zip_format::Header::as_prefix(&bytes).expect("a local header");
        assert_eq!(
            payload_skip(&bytes),
            Ok(header.name_len.get() as i64 + header.metadata_len.get() as i64)
        );
    }
}

#[test]
fn zip_format_accepts_what_is_accepted_here() {
    let good = fixed_part(7, 9);
    for len in 0..=good.len() {
        assert_eq!(
            payload_skip(&good[..len]).is_ok(),
            zip_format::Header::as_prefix(&good[..len]).is_some(),
            "len {len}"
        );
    }
    for at in 0..good.len() {
        for bit in 0..8 {
            let mut bytes = good.clone();
            bytes[at] ^= 1 << bit;
            let theirs = zip_format::Header::as_prefix(&bytes)
                .map(|h| h.name_len.get() as i64 + h.metadata_len.get() as i64);
            assert_eq!(payload_skip(&bytes).ok(), theirs, "byte {at} bit {bit}");
        }
    }
}

#[test]
fn method_codes_are_those_of_zip_format() {
    let mut stored = fixed_part(0, 0);
    stored[8..10].copy_from_slice(&STORED.to_le_bytes());
    let header = zip_format::Header::as_prefix(&stored).unwrap();
    assert!(header.method == zip_format::CompressionMethod::STORED);

    let mut deflate = fixed_part(0, 0);
    deflate[8..10].copy_from_slice(&DEFLATE.to_le_bytes());
    let header = zip_format::Header::as_prefix(&deflate).unwrap();
    assert!(header.method == zip_format::CompressionMethod::DEFLATE);
}

#[test]
fn stored_and_deflate_are_accepted() {
    let mut decompressor = Decompressor::default();
    assert_eq!(STORED, 0);
    assert_eq!(DEFLATE, 8);
    let stored = ReaderBuilder::new(FileHeader { method: 0, start: 5, len: 1 }, &mut decompressor);
    assert_eq!(stored.map(|b| b.start()), Ok(5));
    let deflate = ReaderBuilder::new(FileHeader { method: 8, start: 77, len: 1 }, &mut decompressor);
    assert_eq!(deflate.map(|b| b.start()), Ok(77));
}

#[test]
fn every_other_method_is_refused() {
    let mut decompressor = Decompressor::default();
    for method in 0..=u16::MAX {
        let r = ReaderBuilder::new(FileHeader { method, start: 0, len: 0 }, &mut decompressor);
        if method == 0 || method == 8 {
            assert!(r.is_ok(), "method {method}");
        } else {
            assert!(matches!(r, Err(MethodNotSupported)), "method {method}");
        }
    }
}

#[test]
fn builder_keeps_the_offset_of_the_entry() {
    let mut decompressor = Decompressor::default();
    for start in [0u64, 1, 100, u32::MAX as u64 + 1, u64::MAX] {
        let builder =
            ReaderBuilder::new(FileHeader { method: 0, start, len: u64::MAX }, &mut decompressor)
                .unwrap();
        assert_eq!(builder.start(), start);
    }
}

#[test]
fn session_without_deflate_reads_stored_entries_only() {
    let mut decompressor = Decompressor::without_deflate();
    let stored = ReaderBuilder::new(FileHeader { method: 0, start: 5, len: 1 }, &mut decompressor);
    assert_eq!(stored.map(|b| b.start()), Ok(5));
    let deflate = ReaderBuilder::new(FileHeader { method: 8, start: 5, len: 1 }, &mut decompressor);
    assert!(matches!(deflate, Err(MethodNotSupported)));
    let other = ReaderBuilder::new(FileHeader { method: 12, start: 5, len: 1 }, &mut decompressor);
    assert!(matches!(other, Err(MethodNotSupported)));
}
