use cot::archive::{
    decompress, extract, extract_archive, unzip, ArchiveError, ExtractOutcome, FsAction,
};
use cot::fspath::{classify, ArchiveClass};

fn gzip_bytes(payload: &[u8]) -> Vec<u8> {
    let mut enc = flate2::write::GzEncoder::new(Vec::new(), flate2::Compression::default());
    std::io::Write::write_all(&mut enc, payload).unwrap();
    enc.finish().unwrap()
}

fn tar_bytes(entries: &[(&str, &[u8])]) -> Vec<u8> {
    let mut builder = tar::Builder::new(Vec::new());
    for (path, data) in entries {
        let mut header = tar::Header::new_gnu();
        header.set_size(data.len() as u64);
        header.set_cksum();
        builder.append_data(&mut header, path, *data).unwrap();
    }
    builder.into_inner().unwrap()
}

fn zip_bytes(dir_first: bool) -> Vec<u8> {
    let mut cursor = std::io::Cursor::new(Vec::new());
    {
        let mut w = zip::ZipWriter::new(&mut cursor);
        let opts = zip::write::SimpleFileOptions::default();
        if dir_first {
            w.add_directory("nested/dir/", opts).unwrap();
        }
        w.start_file("nested/dir/file.txt", opts).unwrap();
        std::io::Write::write_all(&mut w, b"hello").unwrap();
        if !dir_first {
            w.add_directory("nested/dir/", opts).unwrap();
        }
        w.finish().unwrap();
    }
    cursor.into_inner()
}

fn action_paths(acts: &[FsAction]) -> (Vec<String>, Vec<(String, Vec<u8>)>) {
    let mut dirs = Vec::new();
    let mut files = Vec::new();
    for a in acts {
        match a {
            FsAction::MkDirAll(p) => dirs.push(p.clone()),
            FsAction::WriteFile(p, d) => files.push((p.clone(), d.clone())),
        }
    }
    (dirs, files)
}

#[test]
fn classify_gz_without_tar_stem_is_rejected() {
    assert_eq!(classify("archive.gz"), ArchiveClass::GzNotTar);
}

#[test]
fn classify_tar_gz_proceeds() {
    assert_eq!(classify("archive.tar.gz"), ArchiveClass::TarGz);
}

#[test]
fn classify_other_extensions() {
    assert_eq!(classify("a.tgz"), ArchiveClass::TarGz);
    assert_eq!(classify("a.tar"), ArchiveClass::Tar);
    assert_eq!(classify("a.zip"), ArchiveClass::Zip);
    assert_eq!(classify("a.txt"), ArchiveClass::Unsupported);
    assert_eq!(classify("noextension"), ArchiveClass::Unsupported);
    assert_eq!(classify(".hidden"), ArchiveClass::Unsupported);
    assert_eq!(classify("dir.zip/inner"), ArchiveClass::Unsupported);
}

#[test]
fn gzip_round_trip() {
    let gz = gzip_bytes(b"payload bytes");
    assert_eq!(decompress(&gz), Ok(b"payload bytes".to_vec()));
}

#[test]
fn gzip_garbage_is_an_error() {
    assert_eq!(decompress(&b"not gzip at all".to_vec()), Err(ArchiveError::Gzip));
}

#[test]
fn zip_nested_dir_and_file() {
    let data = zip_bytes(true);
    let acts = unzip(&data, "dest").unwrap();
    let (dirs, files) = action_paths(&acts);
    assert!(dirs.contains(&"dest/nested/dir/".to_string()));
    assert!(dirs.contains(&"dest/nested/dir".to_string()));
    assert_eq!(files, vec![("dest/nested/dir/file.txt".to_string(), b"hello".to_vec())]);
}

#[test]
fn zip_entry_order_does_not_matter() {
    let a = unzip(&zip_bytes(true), "dest").unwrap();
    let b = unzip(&zip_bytes(false), "dest").unwrap();
    let (mut dirs_a, files_a) = action_paths(&a);
    let (mut dirs_b, files_b) = action_paths(&b);
    dirs_a.sort();
    dirs_b.sort();
    assert_eq!(dirs_a, dirs_b);
    assert_eq!(files_a, files_b);
}

#[test]
fn zip_garbage_is_an_error() {
    assert_eq!(unzip(&b"junk".to_vec(), "."), Err(ArchiveError::Zip));
}

#[test]
fn zip_traversal_is_refused() {
    let mut cursor = std::io::Cursor::new(Vec::new());
    {
        let mut w = zip::ZipWriter::new(&mut cursor);
        let opts = zip::write::SimpleFileOptions::default();
        w.start_file("../evil.txt", opts).unwrap();
        std::io::Write::write_all(&mut w, b"boo").unwrap();
        w.finish().unwrap();
    }
    let data = cursor.into_inner();
    assert_eq!(unzip(&data, "dest"), Err(ArchiveError::UnsafeEntryName));
}

#[test]
fn tar_extract_writes_entries() {
    let data = tar_bytes(&[("sub/one.txt", b"first"), ("two.txt", b"second")]);
    let acts = extract(&data, ".").unwrap();
    let (dirs, files) = action_paths(&acts);
    assert!(dirs.contains(&"./sub".to_string()));
    assert_eq!(
        files,
        vec![
            ("./sub/one.txt".to_string(), b"first".to_vec()),
            ("./two.txt".to_string(), b"second".to_vec()),
        ]
    );
}

#[test]
fn tar_garbage_is_an_error() {
    assert_eq!(extract(&b"definitely not a tar".to_vec(), "."), Err(ArchiveError::Tar));
}

#[test]
fn tar_gz_end_to_end() {
    let tarred = tar_bytes(&[("inner/file.bin", b"\x00\x01\x02")]);
    let gz = gzip_bytes(&tarred);
    match extract_archive("bundle.tar.gz", &gz, "out") {
        ExtractOutcome::Done(acts) => {
            let (dirs, files) = action_paths(&acts);
            assert!(dirs.contains(&"out/inner".to_string()));
            assert_eq!(files, vec![("out/inner/file.bin".to_string(), vec![0u8, 1, 2])]);
        },
        _ => panic!("expected extraction to succeed"),
    }
}

#[test]
fn tgz_dispatches_like_tar_gz() {
    let tarred = tar_bytes(&[("f", b"x")]);
    let gz = gzip_bytes(&tarred);
    match extract_archive("bundle.tgz", &gz, ".") {
        ExtractOutcome::Done(acts) => {
            let (_, files) = action_paths(&acts);
            assert_eq!(files.len(), 1);
        },
        _ => panic!("expected extraction to succeed"),
    }
}

#[test]
fn gz_with_wrong_stem_is_skipped() {
    let gz = gzip_bytes(b"whatever");
    match extract_archive("archive.gz", &gz, ".") {
        ExtractOutcome::Skipped(c) => assert_eq!(c, ArchiveClass::GzNotTar),
        _ => panic!("expected a skip"),
    }
}

#[test]
fn unknown_extension_is_skipped() {
    match extract_archive("notes.txt", &b"text".to_vec(), ".") {
        ExtractOutcome::Skipped(c) => assert_eq!(c, ArchiveClass::Unsupported),
        _ => panic!("expected a skip"),
    }
}

#[test]
fn bad_gzip_under_tar_gz_fails() {
    match extract_archive("bundle.tar.gz", &b"junk".to_vec(), ".") {
        ExtractOutcome::Failed(e) => assert_eq!(e, ArchiveError::Gzip),
        _ => panic!("expected a failure"),
    }
}
