//! The archive that carries a snapshot: the database file as the one entry
//! of a tar archive, compressed with bzip2.

use std::io::Read;
use std::io::Write;
use vstd::prelude::*;
use crate::error::SyncError;

verus! {

/// The name of the database file, and of the entry that holds it.
pub const DB_FILE_NAME: &'static str = "wordmem.sqlite";

/// The permission bits of the entry.
pub const ENTRY_MODE: u32 = 0o600;

/// The tar archive that the `tar` crate builds for one entry with the given
/// name, permission bits and contents, under a blank GNU header:
/// `Builder::append_data`, then `Builder::into_inner`. `None` where the crate
/// refuses the name.
pub uninterp spec fn tar_archive_of(name: Seq<char>, mode: u32, payload: Seq<u8>) -> Option<
    Seq<u8>,
>;

/// The contents of the first entry that the `tar` crate finds in an archive:
/// the first item of `Archive::entries`, read to its end. `None` where the
/// archive has no entry or cannot be read.
pub uninterp spec fn tar_first_entry_of(archive: Seq<u8>) -> Option<Seq<u8>>;

/// The bzip2 stream that the `bzip2` crate writes for the data at its default
/// level: `write::BzEncoder`, finished. `None` where the encoder fails.
pub uninterp spec fn bzip2_stream_of(data: Seq<u8>) -> Option<Seq<u8>>;

/// The data that the `bzip2` crate reads from a stream: `read::BzDecoder`,
/// read to its end. `None` where the stream is damaged.
pub uninterp spec fn bzip2_data_of(stream: Seq<u8>) -> Option<Seq<u8>>;

/// `tar::Builder::append_data` on a new builder over a vector, with a blank
/// GNU header that holds the size and the permission bits, then
/// `Builder::into_inner`. The archive is given the name `tar_archive_of`.
#[verifier::external_body]
fn tar_single_entry(name: &str, mode: u32, payload: &[u8]) -> (archive: Option<Vec<u8>>)
    ensures
        match archive {
            Some(a) => tar_archive_of(name@, mode, payload@) == Some(a@),
            None => tar_archive_of(name@, mode, payload@) is None,
        },
{
    let mut header = tar::Header::new_gnu();
    header.set_size(payload.len() as u64);
    header.set_mode(mode);
    let mut builder = tar::Builder::new(Vec::new());
    match builder.append_data(&mut header, name, payload) {
        Ok(()) => builder.into_inner().ok(),
        Err(_) => None,
    }
}

/// `tar::Archive::entries` over the bytes, its first item read to the end.
/// The contents are given the name `tar_first_entry_of`.
#[verifier::external_body]
fn tar_first_entry(archive: &[u8]) -> (payload: Option<Vec<u8>>)
    ensures
        match payload {
            Some(p) => tar_first_entry_of(archive@) == Some(p@),
            None => tar_first_entry_of(archive@) is None,
        },
{
    let mut archive = tar::Archive::new(archive);
    let mut bytes = Vec::new();
    match archive.entries() {
        Ok(mut entries) => match entries.next() {
            Some(Ok(mut entry)) => match entry.read_to_end(&mut bytes) {
                Ok(_) => Some(bytes),
                Err(_) => None,
            },
            _ => None,
        },
        Err(_) => None,
    }
}

/// `bzip2::write::BzEncoder` over a vector at the default level: the data
/// written, the stream finished. The stream is given the name
/// `bzip2_stream_of`.
#[verifier::external_body]
fn bzip2_compress(data: &[u8]) -> (stream: Option<Vec<u8>>)
    ensures
        match stream {
            Some(s) => bzip2_stream_of(data@) == Some(s@),
            None => bzip2_stream_of(data@) is None,
        },
{
    let mut encoder = bzip2::write::BzEncoder::new(Vec::new(), bzip2::Compression::default());
    match encoder.write_all(data) {
        Ok(()) => encoder.finish().ok(),
        Err(_) => None,
    }
}

/// `bzip2::read::BzDecoder` over the bytes, read to the end. The data is
/// given the name `bzip2_data_of`.
#[verifier::external_body]
fn bzip2_decompress(stream: &[u8]) -> (data: Option<Vec<u8>>)
    ensures
        match data {
            Some(d) => bzip2_data_of(stream@) == Some(d@),
            None => bzip2_data_of(stream@) is None,
        },
{
    let mut decoder = bzip2::read::BzDecoder::new(stream);
    let mut data = Vec::new();
    match decoder.read_to_end(&mut data) {
        Ok(_) => Some(data),
        Err(_) => None,
    }
}

/// What an archive unpacks to: the first entry of the tar archive that its
/// bzip2 stream holds.
pub open spec fn unpacked(archive: Seq<u8>) -> Result<Seq<u8>, SyncError> {
    match bzip2_data_of(archive) {
        Some(tar) => match tar_first_entry_of(tar) {
            Some(payload) => Ok(payload),
            None => Err(SyncError::CorruptArchive),
        },
        None => Err(SyncError::CorruptArchive),
    }
}

/// The archive of a payload: the compressed tar archive of one entry, where
/// it can be built and unpacks to the payload again.
pub open spec fn packed(payload: Seq<u8>) -> Result<Seq<u8>, SyncError> {
    match tar_archive_of(DB_FILE_NAME@, ENTRY_MODE, payload) {
        Some(tar) => match bzip2_stream_of(tar) {
            Some(archive) => if unpacked(archive) == Ok::<Seq<u8>, SyncError>(payload) {
                Ok(archive)
            } else {
                Err(SyncError::CorruptArchive)
            },
            None => Err(SyncError::CorruptArchive),
        },
        None => Err(SyncError::CorruptArchive),
    }
}

/// Whether two byte strings are the same.
pub fn same_bytes(a: &[u8], b: &[u8]) -> (same: bool)
    ensures
        same == (a@ == b@),
{
    if a.len() != b.len() {
        return false;
    }
    let mut i: usize = 0;
    while i < a.len()
        invariant
            0 <= i <= a@.len(),
            a@.len() == b@.len(),
            forall|k: int| 0 <= k < i ==> a@[k] == b@[k],
        decreases a@.len() - i,
    {
        if a[i] != b[i] {
            return false;
        }
        i += 1;
    }
    assert(a@ =~= b@);
    true
}

/// Unpacks an archive: decompresses it and reads the first entry of the tar
/// archive inside. An archive that does not decompress, or holds no entry,
/// is corrupt.
pub fn unpack(archive: &[u8]) -> (payload: Result<Vec<u8>, SyncError>)
    ensures
        match payload {
            Ok(p) => unpacked(archive@) == Ok::<Seq<u8>, SyncError>(p@),
            Err(e) => unpacked(archive@) == Err::<Seq<u8>, SyncError>(e),
        },
{
    match bzip2_decompress(archive) {
        Some(tar) => match tar_first_entry(tar.as_slice()) {
            Some(payload) => Ok(payload),
            None => Err(SyncError::CorruptArchive),
        },
        None => Err(SyncError::CorruptArchive),
    }
}

/// Packs a payload: one tar entry, compressed. The archive is unpacked once
/// before it is handed out, so that what leaves here is known to carry the
/// payload.
pub fn pack(payload: &[u8]) -> (archive: Result<Vec<u8>, SyncError>)
    ensures
        match archive {
            Ok(a) => packed(payload@) == Ok::<Seq<u8>, SyncError>(a@) && unpacked(a@) == Ok::<
                Seq<u8>,
                SyncError,
            >(payload@),
            Err(e) => packed(payload@) == Err::<Seq<u8>, SyncError>(e),
        },
{
    let tar = match tar_single_entry(DB_FILE_NAME, ENTRY_MODE, payload) {
        Some(tar) => tar,
        None => return Err(SyncError::CorruptArchive),
    };
    let archive = match bzip2_compress(tar.as_slice()) {
        Some(archive) => archive,
        None => return Err(SyncError::CorruptArchive),
    };
    match unpack(archive.as_slice()) {
        Ok(back) => if same_bytes(back.as_slice(), payload) {
            Ok(archive)
        } else {
            Err(SyncError::CorruptArchive)
        },
        Err(_) => Err(SyncError::CorruptArchive),
    }
}

/// Whatever `pack` hands out unpacks to the payload it was given.
pub proof fn lemma_pack_round_trip(payload: Seq<u8>)
    ensures
        packed(payload) matches Ok(archive) ==> unpacked(archive) == Ok::<Seq<u8>, SyncError>(
            payload,
        ),
{
}

} // verus!
