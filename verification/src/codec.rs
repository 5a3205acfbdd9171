//! Trusted boundary to the compression and archiving crates.
//!
//! The byte transformations themselves (a zstd frame, a tar stream) are not
//! restated here; each is given a name, and the wrappers state how the named
//! results relate.  Everything downstream is verified against those names.

use vstd::prelude::*;

use crate::archiver::ArchiveError;
use crate::fsmodel::{files_view, DirFile};

verus! {

/// The zstd frame that compressing `data` at `level` produces.
pub uninterp spec fn zstd_of(data: Seq<u8>, level: int) -> Seq<u8>;

/// The bytes a zstd frame decodes to, or `None` when the bytes are not a
/// valid frame.
pub uninterp spec fn unzstd_of(data: Seq<u8>) -> Option<Seq<u8>>;

/// The tar stream that packs the given (name, contents) entries, in order.
pub uninterp spec fn tar_of(entries: Seq<(Seq<u8>, Seq<u8>)>) -> Seq<u8>;

/// The (name, contents) entries a tar stream unpacks to, or `None` when the
/// bytes do not unpack.
pub uninterp spec fn untar_of(data: Seq<u8>) -> Option<Seq<(Seq<u8>, Seq<u8>)>>;

/// Whether tar accepts these entries: packing succeeds or fails as a
/// function of the entry list alone (it fails on names that are not valid
/// UTF-8, are empty or absolute, or climb with "..").
pub uninterp spec fn tar_packable(entries: Seq<(Seq<u8>, Seq<u8>)>) -> bool;

/// A name in canonical relative form: one or more non-empty
/// `/`-separated segments, none of which is "." or begins with "..".  Tar
/// stores such a name verbatim; other accepted names it normalizes (it
/// drops "." segments and doubled separators), so only canonical names
/// are guaranteed to come back from an archive unchanged.
pub open spec fn canonical_name(name: Seq<u8>) -> bool {
    &&& name.len() > 0
    &&& name[0] != 47u8
    &&& name[name.len() - 1] != 47u8
    &&& forall|i: int| 0 <= i < name.len() - 1 ==> !(name[i] == 47u8 && #[trigger] name[i + 1] == 47u8)
    &&& forall|i: int| 0 <= i < name.len() ==> !dot_segment_at(name, i)
}

/// The segment beginning at `i` is exactly "." or starts with "..".
pub open spec fn dot_segment_at(name: Seq<u8>, i: int) -> bool {
    &&& (i == 0 || name[i - 1] == 47u8)
    &&& name[i] == 46u8
    &&& {
        ||| i + 1 == name.len()
        ||| name[i + 1] == 47u8
        ||| name[i + 1] == 46u8
    }
}

/// Every entry's name is in canonical relative form.
pub open spec fn canonical_names(entries: Seq<(Seq<u8>, Seq<u8>)>) -> bool {
    forall|k: int| 0 <= k < entries.len() ==> canonical_name(#[trigger] entries[k].0)
}

/// Relies on zstd::stream::encode_all: the frame is a function of the input
/// bytes and the level alone, and decoding it restores the input (zstd is
/// lossless).  The call always succeeds: it reads from a slice and writes
/// into a vector, neither of which can fail, and out-of-range levels are
/// clamped rather than rejected.
#[verifier::external_body]
pub(crate) fn zstd_compress(data: &Vec<u8>, level: i32) -> (r: Result<Vec<u8>, ArchiveError>)
    ensures
        r is Ok,
        r matches Ok(v) ==> v@ == zstd_of(data@, level as int) && unzstd_of(v@) == Some(data@),
{
    match zstd::stream::encode_all(data.as_slice(), level) {
        Ok(v) => Ok(v),
        Err(_) => Err(ArchiveError::IoError),
    }
}

/// Relies on zstd::stream::decode_all: decoding is a function of the frame
/// bytes alone; it succeeds exactly on valid frames.
#[verifier::external_body]
pub(crate) fn zstd_decompress(data: &Vec<u8>) -> (r: Result<Vec<u8>, ArchiveError>)
    ensures
        r matches Ok(v) ==> unzstd_of(data@) == Some(v@),
        r is Err ==> unzstd_of(data@) is None,
{
    match zstd::stream::decode_all(data.as_slice()) {
        Ok(v) => Ok(v),
        Err(_) => Err(ArchiveError::FormatError),
    }
}

/// Relies on tar::Builder (new, append_data, into_inner): the entries are
/// written into one tar stream in order; both the stream and whether
/// packing is accepted at all are functions of the entries alone.  Headers
/// are zeroed GNU headers, so no clock or environment reaches the stream.
/// Unpacking a stream of canonically named entries yields the entries back
/// exactly (tar stores such names verbatim and entry order is kept).
#[verifier::external_body]
pub(crate) fn tar_pack(entries: &Vec<DirFile>) -> (r: Result<Vec<u8>, ArchiveError>)
    ensures
        r is Ok <==> tar_packable(files_view(entries@)),
        r matches Ok(v) ==> v@ == tar_of(files_view(entries@)),
        r matches Ok(v) ==> canonical_names(files_view(entries@)) ==> untar_of(v@) == Some(
            files_view(entries@),
        ),
{
    let mut b = tar::Builder::new(Vec::new());
    for e in entries.iter() {
        let Ok(name) = std::str::from_utf8(&e.name) else { return Err(ArchiveError::IoError) };
        let mut h = tar::Header::new_gnu();
        h.set_size(e.data.len() as u64);
        if b.append_data(&mut h, name, e.data.as_slice()).is_err() {
            return Err(ArchiveError::IoError);
        }
    }
    match b.into_inner() {
        Ok(v) => Ok(v),
        Err(_) => Err(ArchiveError::IoError),
    }
}

/// Relies on tar::Archive (entries, Entry::path, reading an entry): the
/// entries of a tar stream are a function of the stream alone; reading fails
/// exactly on streams that do not unpack.
#[verifier::external_body]
pub(crate) fn tar_unpack(data: &Vec<u8>) -> (r: Result<Vec<DirFile>, ArchiveError>)
    ensures
        r matches Ok(es) ==> untar_of(data@) == Some(files_view(es@)),
        r is Err ==> untar_of(data@) is None,
{
    let mut ar = tar::Archive::new(data.as_slice());
    let mut out: Vec<DirFile> = Vec::new();
    let Ok(entries) = ar.entries() else { return Err(ArchiveError::FormatError) };
    for ent in entries {
        let Ok(mut ent) = ent else { return Err(ArchiveError::FormatError) };
        let Ok(path) = ent.path() else { return Err(ArchiveError::FormatError) };
        let name = path.to_string_lossy().into_owned().into_bytes();
        let mut contents: Vec<u8> = Vec::new();
        if std::io::Read::read_to_end(&mut ent, &mut contents).is_err() {
            return Err(ArchiveError::FormatError);
        }
        out.push(DirFile { name, data: contents });
    }
    Ok(out)
}

} // verus!
