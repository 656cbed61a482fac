use std::io::Write;

use wordmem::codec::{pack, same_bytes, unpack, DB_FILE_NAME};
use wordmem::error::SyncError;

fn bzip2_of(data: &[u8]) -> Vec<u8> {
    let mut encoder = bzip2::write::BzEncoder::new(Vec::new(), bzip2::Compression::default());
    encoder.write_all(data).unwrap();
    encoder.finish().unwrap()
}

#[test]
fn round_trip_of_an_empty_payload() {
    let archive = pack(&[]).unwrap();
    assert_eq!(unpack(&archive), Ok(Vec::new()));
}

#[test]
fn round_trip_of_one_byte() {
    let archive = pack(&[0x7f]).unwrap();
    assert_eq!(unpack(&archive), Ok(vec![0x7f]));
}

#[test]
fn round_trip_of_several_megabytes() {
    let size = 2 * 1024 * 1024 + 1;
    let mut payload: Vec<u8> = Vec::with_capacity(size);
    let mut state: u32 = 12345;
    for _ in 0..size {
        state = state.wrapping_mul(1664525).wrapping_add(1013904223);
        payload.push((state >> 24) as u8);
    }
    let archive = pack(&payload).unwrap();
    assert_eq!(unpack(&archive).unwrap(), payload);
}

#[test]
fn round_trip_of_bytes_with_nul() {
    let payload = vec![0u8, 1, 0, 0, 255, 0, b'A', 0];
    let archive = pack(&payload).unwrap();
    assert_eq!(unpack(&archive), Ok(payload));
}

#[test]
fn an_archive_is_a_bzip2_stream_and_not_the_payload() {
    let payload = b"ABC".to_vec();
    let archive = pack(&payload).unwrap();
    assert_ne!(archive, payload);
    assert_eq!(&archive[0..3], b"BZh");
}

#[test]
fn the_entry_is_named_after_the_database_file() {
    let archive = pack(b"ABC").unwrap();
    let mut tar_bytes = Vec::new();
    std::io::Read::read_to_end(&mut bzip2::read::BzDecoder::new(&archive[..]), &mut tar_bytes)
        .unwrap();
    assert_ne!(tar_bytes, archive);
    let mut tar = tar::Archive::new(&tar_bytes[..]);
    let entry = tar.entries().unwrap().next().unwrap().unwrap();
    assert_eq!(entry.path().unwrap().to_str().unwrap(), DB_FILE_NAME);
    assert_eq!(entry.header().size().unwrap(), 3);
    assert_eq!(entry.header().mode().unwrap(), 0o600);
}

#[test]
fn bytes_that_do_not_decompress_are_corrupt() {
    assert_eq!(unpack(b"this is no archive"), Err(SyncError::CorruptArchive));
    assert_eq!(unpack(&[]), Err(SyncError::CorruptArchive));
}

#[test]
fn an_archive_without_entries_is_corrupt() {
    let empty_tar = vec![0u8; 1024];
    assert_eq!(unpack(&bzip2_of(&empty_tar)), Err(SyncError::CorruptArchive));
}

#[test]
fn a_stream_that_holds_no_tar_archive_is_corrupt() {
    assert_eq!(unpack(&bzip2_of(b"")), Err(SyncError::CorruptArchive));
}

#[test]
fn a_truncated_archive_is_corrupt() {
    let archive = pack(b"some database bytes").unwrap();
    assert_eq!(unpack(&archive[..archive.len() / 2]), Err(SyncError::CorruptArchive));
}

#[test]
fn packing_is_deterministic() {
    assert_eq!(pack(b"same bytes"), pack(b"same bytes"));
}

#[test]
fn same_bytes_compares_contents() {
    assert!(same_bytes(b"abc", b"abc"));
    assert!(!same_bytes(b"abc", b"abd"));
    assert!(!same_bytes(b"abc", b"ab"));
    assert!(same_bytes(b"", b""));
}
