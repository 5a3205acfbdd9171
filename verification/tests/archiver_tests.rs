use piper::archiver::{
    compress_file, decompress_file, dir_archive_path, file_archive_path, should_commit,
    ArchiveError,
};
use piper::fsmodel::{DirFile, FsObject, ModelFs};

fn p(s: &str) -> Vec<u8> {
    s.as_bytes().to_vec()
}

#[test]
fn test_compress_saves_space() {
    // Setup: a highly compressible file of 1 MiB of 'A'.
    let mut fs = ModelFs::new();
    let path = p("test_compressible.log");
    let mut data: Vec<u8> = Vec::new();
    for _ in 0..1024 {
        data.extend_from_slice(&[b'A'; 1024]);
    }
    let original_size = data.len() as u64;
    fs.set(path.clone(), FsObject::File(data));

    let stats = compress_file(&mut fs, &path, 15).unwrap();

    assert!(stats.compressed_size < original_size);
    assert!(fs.get(&path).is_none(), "Original file should be deleted");
    assert!(
        fs.get(&p("test_compressible.log.zst")).is_some(),
        "Compressed file should exist"
    );
}

#[test]
fn test_compress_skips_bad_ratio() {
    // Setup: a file too small for compression to save anything.
    let mut fs = ModelFs::new();
    let path = p("test_tiny.log");
    fs.set(path.clone(), FsObject::File(b"random".to_vec()));
    let original_size = 6u64;

    let stats = compress_file(&mut fs, &path, 15).unwrap();

    assert_eq!(
        stats.compressed_size, original_size,
        "Should report original size if skipped"
    );
    assert!(fs.get(&path).is_some(), "Original file should STILL exist");
    assert!(
        fs.get(&p("test_tiny.log.zst")).is_none(),
        "Compressed file should NOT exist"
    );
}

#[test]
fn test_file_round_trip() {
    let mut fs = ModelFs::new();
    let path = p("notes.txt");
    let mut data: Vec<u8> = Vec::new();
    for i in 0..50000u32 {
        data.push((i % 7) as u8);
    }
    fs.set(path.clone(), FsObject::File(data.clone()));

    let stats = compress_file(&mut fs, &path, 3).unwrap();
    assert!(stats.compressed_size < stats.original_size);
    assert_eq!(stats.output_path, p("notes.txt.zst"));

    let restored = decompress_file(&mut fs, &stats.output_path).unwrap();
    assert_eq!(restored, data.len() as u64);
    match fs.get(&path) {
        Some(FsObject::File(d)) => assert_eq!(d, &data),
        _ => panic!("restored file missing"),
    }
    assert!(fs.get(&stats.output_path).is_none(), "archive should be gone");
}

#[test]
fn test_compress_atomicity() {
    // After any compress call, exactly one of original and archive exists.
    let mut fs = ModelFs::new();
    let big = p("big.log");
    let mut data: Vec<u8> = Vec::new();
    for _ in 0..4096 {
        data.push(b'z');
    }
    fs.set(big.clone(), FsObject::File(data));
    compress_file(&mut fs, &big, 3).unwrap();
    let both = fs.get(&big).is_some() && fs.get(&p("big.log.zst")).is_some();
    let neither = fs.get(&big).is_none() && fs.get(&p("big.log.zst")).is_none();
    assert!(!both && !neither);

    let tiny = p("tiny.log");
    fs.set(tiny.clone(), FsObject::File(b"ab".to_vec()));
    compress_file(&mut fs, &tiny, 3).unwrap();
    let both = fs.get(&tiny).is_some() && fs.get(&p("tiny.log.zst")).is_some();
    let neither = fs.get(&tiny).is_none() && fs.get(&p("tiny.log.zst")).is_none();
    assert!(!both && !neither);
}

#[test]
fn test_directory_round_trip() {
    let mut fs = ModelFs::new();
    let dir = p("bundle");
    let files = vec![
        DirFile { name: p("a.txt"), data: vec![b'x'; 5000] },
        DirFile { name: p("sub/b.log"), data: vec![b'y'; 3000] },
    ];
    fs.set(dir.clone(), FsObject::Dir(files));

    let stats = compress_file(&mut fs, &dir, 3).unwrap();
    assert_eq!(stats.original_size, 8000);
    assert!(stats.compressed_size < 8000);
    assert_eq!(stats.output_path, p("bundle.tar.zst"));
    assert!(fs.get(&dir).is_none(), "directory should be gone");
    assert!(fs.get(&p("bundle.tar.zst")).is_some());

    let restored = decompress_file(&mut fs, &stats.output_path).unwrap();
    assert_eq!(restored, 8000);
    assert!(fs.get(&stats.output_path).is_none());
    match fs.get(&dir) {
        Some(FsObject::Dir(files)) => {
            assert_eq!(files.len(), 2);
            assert_eq!(files[0].name, p("a.txt"));
            assert_eq!(files[0].data, vec![b'x'; 5000]);
            assert_eq!(files[1].name, p("sub/b.log"));
            assert_eq!(files[1].data, vec![b'y'; 3000]);
        }
        _ => panic!("restored directory missing"),
    }
}

#[test]
fn test_directory_no_savings() {
    let mut fs = ModelFs::new();
    let dir = p("mini");
    let files = vec![DirFile { name: p("x"), data: b"hi".to_vec() }];
    fs.set(dir.clone(), FsObject::Dir(files));

    let stats = compress_file(&mut fs, &dir, 3).unwrap();
    assert_eq!(stats.original_size, 2);
    assert_eq!(stats.compressed_size, 2);
    assert_eq!(stats.output_path, dir);
    assert!(fs.get(&dir).is_some(), "directory should be untouched");
    assert!(fs.get(&p("mini.tar.zst")).is_none());
}

#[test]
fn test_compress_missing_path() {
    let mut fs = ModelFs::new();
    let r = compress_file(&mut fs, &p("absent.log"), 3);
    assert!(matches!(r, Err(ArchiveError::IoError)));
}

#[test]
fn test_decompress_unknown_suffix() {
    let mut fs = ModelFs::new();
    fs.set(p("foo.bin"), FsObject::File(b"data".to_vec()));
    let r = decompress_file(&mut fs, &p("foo.bin"));
    assert!(matches!(r, Err(ArchiveError::FormatError)));
    assert!(fs.get(&p("foo.bin")).is_some());
}

#[test]
fn test_decompress_missing_archive() {
    let mut fs = ModelFs::new();
    let r = decompress_file(&mut fs, &p("gone.zst"));
    assert!(matches!(r, Err(ArchiveError::IoError)));
}

#[test]
fn test_decompress_corrupt_archive() {
    let mut fs = ModelFs::new();
    fs.set(p("bad.zst"), FsObject::File(b"this is not a zstd frame".to_vec()));
    let r = decompress_file(&mut fs, &p("bad.zst"));
    assert!(matches!(r, Err(ArchiveError::FormatError)));
    assert!(fs.get(&p("bad.zst")).is_some(), "archive left untouched");
}

#[test]
fn test_archive_paths_and_commit_rule() {
    assert_eq!(file_archive_path(&p("a.log")), p("a.log.zst"));
    assert_eq!(dir_archive_path(&p("proj/target")), p("proj/target.tar.zst"));
    assert!(should_commit(100, 99));
    assert!(!should_commit(100, 100));
    assert!(!should_commit(100, 101));
}
