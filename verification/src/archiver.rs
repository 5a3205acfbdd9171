//! The archiver: compress or decompress one file or one directory of the
//! model filesystem, under an atomic commit-or-discard protocol.
//!
//! A compressed file lives under its original path plus a suffix; the
//! original is removed only after the archive is in place, and an archive
//! that saves nothing is discarded, leaving the original untouched.

use vstd::prelude::*;

use crate::bytes::{append_bytes, clone_bytes, ends_with, lemma_strip_appended, spec_ends_with,
    strip_last};
use crate::codec::{canonical_names, tar_of, tar_pack, tar_packable, tar_unpack, untar_of,
    unzstd_of, zstd_compress, zstd_decompress, zstd_of};
use crate::fsmodel::{files_size, files_view, sat_u64, total_files_size, FsObjView, FsObject,
    ModelFs};

verus! {

/// Why an archiver call failed: the object could not be read or written, or
/// the bytes handed to decompression are not a recognized archive.
#[derive(Clone, Copy, Debug, PartialEq, Eq, Structural)]
pub enum ArchiveError {
    IoError,
    FormatError,
}

/// What one compression call achieved.  `compressed_size == original_size`
/// reports that no savings were possible and the original was left as it
/// was; it is not an error.
pub struct CompressionStats {
    pub original_size: u64,
    pub compressed_size: u64,
    pub output_path: Vec<u8>,
}

/// The suffix appended to a compressed file: ".zst".
pub open spec fn zst_suffix() -> Seq<u8> {
    seq![46u8, 122u8, 115u8, 116u8]
}

/// The double suffix appended to a packed, compressed directory: ".tar.zst".
pub open spec fn tar_zst_suffix() -> Seq<u8> {
    seq![46u8, 116u8, 97u8, 114u8, 46u8, 122u8, 115u8, 116u8]
}

/// The archive path of a compressed file: the original path plus ".zst".
pub open spec fn file_archive_name(path: Seq<u8>) -> Seq<u8> {
    path + zst_suffix()
}

/// The archive path of a packed directory: the original path plus ".tar.zst".
pub open spec fn dir_archive_name(path: Seq<u8>) -> Seq<u8> {
    path + tar_zst_suffix()
}

/// The archive path that compressing the object at `path` would produce.
pub open spec fn archive_name_of(obj: FsObjView, path: Seq<u8>) -> Seq<u8> {
    match obj {
        FsObjView::File(_) => file_archive_name(path),
        FsObjView::Dir(_) => dir_archive_name(path),
    }
}

/// Decide whether a compressed artifact is worth keeping: the archive is
/// committed only when it is strictly smaller than the original.
pub fn should_commit(original_size: u64, compressed_size: u64) -> (r: bool)
    ensures
        r == (compressed_size < original_size),
{
    compressed_size < original_size
}

/// The suffix ".zst" as bytes.
pub fn zst_suffix_vec() -> (v: Vec<u8>)
    ensures
        v@ == zst_suffix(),
{
    let v: Vec<u8> = vec![46u8, 122u8, 115u8, 116u8];
    assert(v@ =~= zst_suffix());
    v
}

/// The suffix ".tar.zst" as bytes.
pub fn tar_zst_suffix_vec() -> (v: Vec<u8>)
    ensures
        v@ == tar_zst_suffix(),
{
    let v: Vec<u8> = vec![46u8, 116u8, 97u8, 114u8, 46u8, 122u8, 115u8, 116u8];
    assert(v@ =~= tar_zst_suffix());
    v
}

/// The archive path of a compressed file, as bytes.
pub fn file_archive_path(path: &Vec<u8>) -> (r: Vec<u8>)
    ensures
        r@ == file_archive_name(path@),
{
    let s = zst_suffix_vec();
    append_bytes(path, &s)
}

/// The archive path of a packed directory, as bytes.
pub fn dir_archive_path(path: &Vec<u8>) -> (r: Vec<u8>)
    ensures
        r@ == dir_archive_name(path@),
{
    let s = tar_zst_suffix_vec();
    append_bytes(path, &s)
}

/// When a compress call succeeds: the path must be bound, and a directory
/// must be one whose files tar accepts; a regular file always compresses
/// (the zstd call cannot fail).
pub open spec fn compress_succeeds(m: Map<Seq<u8>, FsObjView>, path: Seq<u8>) -> bool {
    m.contains_key(path) && match m[path] {
        FsObjView::File(_) => true,
        FsObjView::Dir(files) => tar_packable(files),
    }
}

/// The filesystem after a compress call that returned successfully: when
/// the archive is strictly smaller than the original, the archive stands
/// under the derived name and the original is gone; otherwise nothing
/// changed.
pub open spec fn compress_ok_map(
    m: Map<Seq<u8>, FsObjView>,
    path: Seq<u8>,
    level: int,
) -> Map<Seq<u8>, FsObjView>
    recommends
        m.contains_key(path),
{
    match m[path] {
        FsObjView::File(d) => {
            if zstd_of(d, level).len() < d.len() {
                m.remove(path).insert(file_archive_name(path), FsObjView::File(zstd_of(d, level)))
            } else {
                m
            }
        },
        FsObjView::Dir(files) => {
            let packed = zstd_of(tar_of(files), level);
            if packed.len() < sat_u64(files_size(files)) {
                m.remove(path).insert(dir_archive_name(path), FsObjView::File(packed))
            } else {
                m
            }
        },
    }
}

/// The (original size, compressed size, output path) a successful compress
/// call reports.  On no savings the compressed size equals the original
/// size and the output path is the untouched original.
pub open spec fn compress_ok_stats(
    m: Map<Seq<u8>, FsObjView>,
    path: Seq<u8>,
    level: int,
) -> (int, int, Seq<u8>)
    recommends
        m.contains_key(path),
{
    match m[path] {
        FsObjView::File(d) => {
            if zstd_of(d, level).len() < d.len() {
                (d.len() as int, zstd_of(d, level).len() as int, file_archive_name(path))
            } else {
                (d.len() as int, d.len() as int, path)
            }
        },
        FsObjView::Dir(files) => {
            let orig = sat_u64(files_size(files));
            let packed = zstd_of(tar_of(files), level);
            if packed.len() < orig {
                (orig, packed.len() as int, dir_archive_name(path))
            } else {
                (orig, orig, path)
            }
        },
    }
}

/// The filesystem and the result after a decompress call: dispatch is by
/// suffix; on success the restored object stands under the path with the
/// suffix stripped and the archive is gone; on any failure nothing changed.
pub open spec fn decompress_model(m: Map<Seq<u8>, FsObjView>, path: Seq<u8>) -> (
    Map<Seq<u8>, FsObjView>,
    Result<int, ArchiveError>,
) {
    if spec_ends_with(path, tar_zst_suffix()) {
        if !m.contains_key(path) {
            (m, Err(ArchiveError::IoError))
        } else {
            match m[path] {
                FsObjView::Dir(_) => (m, Err(ArchiveError::IoError)),
                FsObjView::File(b) => match unzstd_of(b) {
                    Option::None => (m, Err(ArchiveError::FormatError)),
                    Option::Some(t) => match untar_of(t) {
                        Option::None => (m, Err(ArchiveError::FormatError)),
                        Option::Some(es) => {
                            let dir_path = path.subrange(
                                0,
                                path.len() - tar_zst_suffix().len(),
                            );
                            (
                                m.remove(path).insert(dir_path, FsObjView::Dir(es)),
                                Ok(sat_u64(files_size(es))),
                            )
                        },
                    },
                },
            }
        }
    } else if spec_ends_with(path, zst_suffix()) {
        if !m.contains_key(path) {
            (m, Err(ArchiveError::IoError))
        } else {
            match m[path] {
                FsObjView::Dir(_) => (m, Err(ArchiveError::IoError)),
                FsObjView::File(b) => match unzstd_of(b) {
                    Option::None => (m, Err(ArchiveError::FormatError)),
                    Option::Some(d) => {
                        let out = path.subrange(0, path.len() - zst_suffix().len());
                        (
                            m.remove(path).insert(out, FsObjView::File(d)),
                            Ok(sat_u64(d.len() as int)),
                        )
                    },
                },
            }
        }
    } else {
        (m, Err(ArchiveError::FormatError))
    }
}

/// A `Result` of machine integers, read as a `Result` of integers.
pub open spec fn res_as_int(r: Result<u64, ArchiveError>) -> Result<int, ArchiveError> {
    match r {
        Ok(n) => Ok(n as int),
        Err(e) => Err(e),
    }
}

/// Compress the object at `input_path`, committing the archive only when it
/// is strictly smaller than the original, and removing the original only
/// after the archive is in place.  Success is owed exactly on the inputs of
/// `compress_succeeds`: a bound path, and, for a directory, files tar
/// accepts.
///
/// The last three clauses state the archiver's laws.  Exactly one of the
/// original and the archive exists afterwards, whatever happened, provided
/// the archive path was free beforehand.  A committed file archive
/// decompresses back to the exact original filesystem: content and size are
/// restored byte for byte (stated for output paths that do not themselves
/// look like a directory archive, where decompression would dispatch to the
/// directory branch instead).  And a committed directory archive of
/// canonically named files decompresses back to the exact original
/// filesystem and total size.
pub fn compress_file(fs: &mut ModelFs, input_path: &Vec<u8>, level: i32) -> (r: Result<
    CompressionStats,
    ArchiveError,
>)
    requires
        old(fs).wf(),
    ensures
        final(fs).wf(),
        r is Err ==> final(fs)@ == old(fs)@ && r == Err::<CompressionStats, ArchiveError>(
            ArchiveError::IoError,
        ),
        r is Ok <==> compress_succeeds(old(fs)@, input_path@),
        r matches Ok(st) ==> {
            &&& old(fs)@.contains_key(input_path@)
            &&& final(fs)@ == compress_ok_map(old(fs)@, input_path@, level as int)
            &&& st.original_size == compress_ok_stats(old(fs)@, input_path@, level as int).0
            &&& st.compressed_size == compress_ok_stats(old(fs)@, input_path@, level as int).1
            &&& st.output_path@ == compress_ok_stats(old(fs)@, input_path@, level as int).2
        },
        old(fs)@.contains_key(input_path@) && !old(fs)@.contains_key(
            archive_name_of(old(fs)@[input_path@], input_path@),
        ) ==> (final(fs)@.contains_key(input_path@) <==> !final(fs)@.contains_key(
            archive_name_of(old(fs)@[input_path@], input_path@),
        )),
        r matches Ok(st) ==> old(fs)@[input_path@] matches FsObjView::File(d)
            ==> st.compressed_size < st.original_size && !old(fs)@.contains_key(
            file_archive_name(input_path@),
        ) && !spec_ends_with(file_archive_name(input_path@), tar_zst_suffix()) ==> {
            &&& decompress_model(final(fs)@, file_archive_name(input_path@)).0 == old(fs)@
            &&& decompress_model(final(fs)@, file_archive_name(input_path@)).1 == Ok::<
                int,
                ArchiveError,
            >(d.len() as int)
        },
        r matches Ok(st) ==> old(fs)@[input_path@] matches FsObjView::Dir(files)
            ==> st.compressed_size < st.original_size && !old(fs)@.contains_key(
            dir_archive_name(input_path@),
        ) && canonical_names(files) ==> {
            &&& decompress_model(final(fs)@, dir_archive_name(input_path@)).0 == old(fs)@
            &&& decompress_model(final(fs)@, dir_archive_name(input_path@)).1 == Ok::<
                int,
                ArchiveError,
            >(sat_u64(files_size(files)))
        },
{
    let ghost m0 = fs@;
    let obj = match fs.get(input_path) {
        None => {
            return Err(ArchiveError::IoError);
        },
        Some(o) => o,
    };
    match obj {
        FsObject::File(data) => {
            let original_size: u64 = data.len() as u64;
            let compressed = match zstd_compress(data, level) {
                Err(_) => {
                    return Err(ArchiveError::IoError);
                },
                Ok(c) => c,
            };
            let ghost d = data@;
            if (compressed.len() as u64) < original_size {
                let out_path = file_archive_path(input_path);
                let compressed_size: u64 = compressed.len() as u64;
                let stats = CompressionStats {
                    original_size,
                    compressed_size,
                    output_path: clone_bytes(&out_path),
                };
                let ghost out = out_path@;
                fs.set(out_path, FsObject::File(compressed));
                fs.remove(input_path);
                proof {
                    lemma_strip_appended(input_path@, zst_suffix());
                    assert(m0.insert(out, FsObjView::File(zstd_of(d, level as int))).remove(
                        input_path@,
                    ) =~= m0.remove(input_path@).insert(
                        out,
                        FsObjView::File(zstd_of(d, level as int)),
                    ));
                    if !m0.contains_key(out) && !spec_ends_with(out, tar_zst_suffix()) {
                        let m2 = fs@;
                        assert(m2.remove(out) =~= m0.remove(input_path@));
                        assert(m2.remove(out).insert(input_path@, FsObjView::File(d)) =~= m0);
                        assert(decompress_model(m2, out).0 == m0);
                    }
                }
                Ok(stats)
            } else {
                let stats = CompressionStats {
                    original_size,
                    compressed_size: original_size,
                    output_path: clone_bytes(input_path),
                };
                Ok(stats)
            }
        },
        FsObject::Dir(files) => {
            let original_size: u64 = total_files_size(files);
            let packed = match tar_pack(files) {
                Err(_) => {
                    return Err(ArchiveError::IoError);
                },
                Ok(t) => t,
            };
            let compressed = match zstd_compress(&packed, level) {
                Err(_) => {
                    return Err(ArchiveError::IoError);
                },
                Ok(c) => c,
            };
            if (compressed.len() as u64) < original_size {
                let out_path = dir_archive_path(input_path);
                let compressed_size: u64 = compressed.len() as u64;
                let stats = CompressionStats {
                    original_size,
                    compressed_size,
                    output_path: clone_bytes(&out_path),
                };
                let ghost out = out_path@;
                let ghost fv = files_view(files@);
                fs.set(out_path, FsObject::File(compressed));
                fs.remove(input_path);
                proof {
                    lemma_strip_appended(input_path@, tar_zst_suffix());
                    assert(m0.insert(out, fs@[out]).remove(input_path@) =~= m0.remove(
                        input_path@,
                    ).insert(out, fs@[out]));
                    if !m0.contains_key(out) && canonical_names(fv) {
                        let m2 = fs@;
                        assert(m2.remove(out) =~= m0.remove(input_path@));
                        assert(m2.remove(out).insert(input_path@, FsObjView::Dir(fv)) =~= m0);
                        assert(decompress_model(m2, out).0 == m0);
                    }
                }
                Ok(stats)
            } else {
                let stats = CompressionStats {
                    original_size,
                    compressed_size: original_size,
                    output_path: clone_bytes(input_path),
                };
                Ok(stats)
            }
        },
    }
}

/// Decompress the archive at `input_path`: a ".tar.zst" archive is unpacked
/// into a directory, a ".zst" archive into a file, each under the path with
/// the suffix stripped; the archive is removed on success and left
/// untouched on any failure.  Returns the restored size.
pub fn decompress_file(fs: &mut ModelFs, input_path: &Vec<u8>) -> (r: Result<u64, ArchiveError>)
    requires
        old(fs).wf(),
    ensures
        final(fs).wf(),
        final(fs)@ == decompress_model(old(fs)@, input_path@).0,
        res_as_int(r) == decompress_model(old(fs)@, input_path@).1,
{
    let tz = tar_zst_suffix_vec();
    let z = zst_suffix_vec();
    if ends_with(input_path, &tz) {
        match fs.get(input_path) {
            None => Err(ArchiveError::IoError),
            Some(FsObject::Dir(_)) => Err(ArchiveError::IoError),
            Some(FsObject::File(b)) => {
                match zstd_decompress(b) {
                    Err(_) => Err(ArchiveError::FormatError),
                    Ok(t) => {
                        match tar_unpack(&t) {
                            Err(_) => Err(ArchiveError::FormatError),
                            Ok(es) => {
                                let size = total_files_size(&es);
                                let dir_path = strip_last(input_path, tz.len());
                                fs.remove(input_path);
                                fs.set(dir_path, FsObject::Dir(es));
                                Ok(size)
                            },
                        }
                    },
                }
            },
        }
    } else if ends_with(input_path, &z) {
        match fs.get(input_path) {
            None => Err(ArchiveError::IoError),
            Some(FsObject::Dir(_)) => Err(ArchiveError::IoError),
            Some(FsObject::File(b)) => {
                match zstd_decompress(b) {
                    Err(_) => Err(ArchiveError::FormatError),
                    Ok(d) => {
                        let size: u64 = d.len() as u64;
                        let out_path = strip_last(input_path, z.len());
                        fs.remove(input_path);
                        fs.set(out_path, FsObject::File(d));
                        Ok(size)
                    },
                }
            },
        }
    } else {
        Err(ArchiveError::FormatError)
    }
}

/// Law: however a successful compress call went, exactly one of the
/// original and its derived archive exists afterwards — never both, never
/// neither — provided the archive path was free beforehand.
pub proof fn lemma_compress_atomicity(m: Map<Seq<u8>, FsObjView>, path: Seq<u8>, level: int)
    requires
        m.contains_key(path),
        !m.contains_key(archive_name_of(m[path], path)),
    ensures
        ({
            let m2 = compress_ok_map(m, path, level);
            m2.contains_key(path) <==> !m2.contains_key(archive_name_of(m[path], path))
        }),
{
    let out = archive_name_of(m[path], path);
    assert(out.len() > path.len());
}

} // verus!
