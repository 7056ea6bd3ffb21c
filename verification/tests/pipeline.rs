//! End-to-end tests: real archives through extraction, classification and
//! the fast-import writer.

use std::io::Write as _;
use std::sync::Mutex;

use pypi_mirror::archive::ArchiveType;
use pypi_mirror::content::SkipReason;
use pypi_mirror::extract::{extract_package, process_package, write_package_contents,
    DownloadError};
use pypi_mirror::git::GitFastImporter;
use pypi_mirror::repository::RepositoryPackage;

fn zip_archive(entries: &[(&str, &[u8])]) -> Vec<u8> {
    let cursor = std::io::Cursor::new(Vec::new());
    let mut writer = zip::ZipWriter::new(cursor);
    let options = zip::write::SimpleFileOptions::default();
    for (name, data) in entries {
        writer.start_file(*name, options).expect("start zip entry");
        writer.write_all(data).expect("write zip entry");
    }
    writer.finish().expect("finish zip").into_inner()
}

fn tar_gz_archive(entries: &[(&str, &[u8])]) -> Vec<u8> {
    let encoder = flate2::write::GzEncoder::new(Vec::new(), flate2::Compression::default());
    let mut builder = tar::Builder::new(encoder);
    for (name, data) in entries {
        let mut header = tar::Header::new_gnu();
        header.set_size(data.len() as u64);
        header.set_mode(0o644);
        header.set_cksum();
        builder.append_data(&mut header, name, &data[..]).expect("append tar entry");
    }
    let encoder = builder.into_inner().expect("finish tar");
    encoder.finish().expect("finish gzip")
}

fn tar_bz_archive(entries: &[(&str, &[u8])]) -> Vec<u8> {
    let encoder = bzip2::write::BzEncoder::new(Vec::new(), bzip2::Compression::default());
    let mut builder = tar::Builder::new(encoder);
    for (name, data) in entries {
        let mut header = tar::Header::new_gnu();
        header.set_size(data.len() as u64);
        header.set_mode(0o644);
        header.set_cksum();
        builder.append_data(&mut header, name, &data[..]).expect("append tar entry");
    }
    let encoder = builder.into_inner().expect("finish tar");
    encoder.finish().expect("finish bzip2")
}

fn demo_package(url: &str) -> RepositoryPackage {
    RepositoryPackage {
        project_name: b"demo".to_vec(),
        project_version: b"1.0".to_vec(),
        url: url.as_bytes().to_vec(),
        upload_time: 0,
        processed: false,
    }
}

fn find(haystack: &[u8], needle: &[u8]) -> Option<usize> {
    if needle.len() > haystack.len() {
        return None;
    }
    (0..=haystack.len() - needle.len()).find(|&i| &haystack[i..i + needle.len()] == needle)
}

fn contains(haystack: &[u8], needle: &[u8]) -> bool {
    find(haystack, needle).is_some()
}

fn count_occurrences(haystack: &[u8], needle: &[u8]) -> usize {
    let mut n = 0;
    let mut i = 0;
    while i + needle.len() <= haystack.len() {
        if &haystack[i..i + needle.len()] == needle {
            n += 1;
            i += needle.len();
        } else {
            i += 1;
        }
    }
    n
}

fn hex(bytes: &[u8]) -> String {
    let mut s = String::new();
    for b in bytes {
        s.push_str(&format!("{:02x}", b));
    }
    s
}

#[test]
fn zip_package_yields_one_kept_file_and_one_commit() {
    // A zip archive with one ten-byte source file.
    let archive = zip_archive(&[("pkg/__init__.py", b"x = 1\n# ok")]);
    let package = demo_package("https://files.example/demo-1.0.zip");
    let mut writer = GitFastImporter::new(1, b"code".to_vec(), false, false);
    let items = process_package(&mut writer, &package, &archive).expect("processing succeeds");
    assert_eq!(items.len(), 1);
    let item = &items[0];
    assert_eq!(item.path, b"packages/demo/demo-1.0.zip/pkg/__init__.py".to_vec());
    assert_eq!(item.archive_path, b"pkg/__init__.py".to_vec());
    assert!(item.skip_reason.is_none());
    assert_eq!(item.lines, Some(1));
    assert_eq!(item.size, 10);
    assert_eq!(hex(&item.hash), "517b9881fe689ec1b2e577f1edb912e21ba83afb");
    let out = writer.take_output();
    assert!(out.starts_with(b"blob\nmark :1\ndata 10\nx = 1\n# ok\n"));
    assert!(contains(&out, b"commit refs/heads/code\nmark :2\n"));
    assert!(contains(&out, b"Add package demo/1.0/demo-1.0.zip"));
    assert!(contains(&out, b"M 100644 :1 packages/demo/demo-1.0.zip/pkg/__init__.py\n"));
}

#[test]
fn empty_entry_is_recorded_but_never_kept() {
    let archive = zip_archive(&[("pkg/empty.py", b"")]);
    let package = demo_package("https://files.example/demo-1.0.zip");
    let mut writer = GitFastImporter::new(1, b"code".to_vec(), false, false);
    let items = process_package(&mut writer, &package, &archive).expect("processing succeeds");
    assert_eq!(items.len(), 1);
    let item = &items[0];
    assert!(matches!(item.skip_reason, Some(SkipReason::Empty)));
    assert_eq!(item.lines, Some(0));
    // The digest is computed over the empty content all the same.
    assert_eq!(hex(&item.hash), "e69de29bb2d1d6434b8b29ae775ad8c2e48c5391");
    let out = writer.take_output();
    assert!(!contains(&out, b"blob"));
    assert!(!contains(&out, b"M 100644"));
    assert!(contains(&out, b"commit refs/heads/code\nmark :1\n"));
}

#[test]
fn virtualenv_entries_are_skipped_by_path_alone() {
    let archive = zip_archive(&[("x/.venv/site-packages/mod.py", b"print(1)\n")]);
    let package = demo_package("https://files.example/demo-1.0.zip");
    let mut writer = GitFastImporter::new(1, b"code".to_vec(), false, false);
    let items = process_package(&mut writer, &package, &archive).expect("processing succeeds");
    assert_eq!(items.len(), 1);
    assert!(matches!(items[0].skip_reason, Some(SkipReason::Venv)));
    let out = writer.take_output();
    assert!(!contains(&out, b"M 100644"));
}

#[test]
fn directory_entries_never_reach_the_classifier() {
    let cursor = std::io::Cursor::new(Vec::new());
    let mut zw = zip::ZipWriter::new(cursor);
    let options = zip::write::SimpleFileOptions::default();
    zw.add_directory("pkg/", options).expect("add directory");
    zw.start_file("pkg/a.py", options).expect("start file");
    zw.write_all(b"x = 1\n").expect("write");
    let archive = zw.finish().expect("finish").into_inner();
    let (items, kept) = extract_package(
        ArchiveType::Zip,
        &archive,
        &b"p/".to_vec(),
    ).expect("extraction succeeds");
    assert_eq!(items.len(), 1);
    assert_eq!(kept.len(), 1);
    assert_eq!(items[0].archive_path, b"pkg/a.py".to_vec());
}

#[test]
fn tar_gz_package_round_trips() {
    let archive = tar_gz_archive(&[("demo/main.py", b"import os\n")]);
    let package = demo_package("https://files.example/demo-1.0.tar.gz");
    let mut writer = GitFastImporter::new(1, b"code".to_vec(), false, false);
    let items = process_package(&mut writer, &package, &archive).expect("processing succeeds");
    assert_eq!(items.len(), 1);
    assert!(items[0].skip_reason.is_none());
    assert_eq!(items[0].path, b"packages/demo/demo-1.0.tar.gz/demo/main.py".to_vec());
    let out = writer.take_output();
    assert!(contains(&out, b"M 100644 :1 packages/demo/demo-1.0.tar.gz/demo/main.py\n"));
}

#[test]
fn tar_bz_package_round_trips() {
    let archive = tar_bz_archive(&[("demo/main.py", b"import sys\n")]);
    let package = demo_package("https://files.example/demo-1.0.tar.bz2");
    let mut writer = GitFastImporter::new(1, b"code".to_vec(), false, false);
    let items = process_package(&mut writer, &package, &archive).expect("processing succeeds");
    assert_eq!(items.len(), 1);
    assert!(items[0].skip_reason.is_none());
    let out = writer.take_output();
    assert!(contains(&out, b"M 100644 :1 packages/demo/demo-1.0.tar.bz2/demo/main.py\n"));
}

#[test]
fn exe_installers_carry_a_zip_container() {
    let archive = zip_archive(&[("demo/setup.py", b"import sys\n")]);
    let package = demo_package("https://files.example/demo-1.0.exe");
    let mut writer = GitFastImporter::new(1, b"code".to_vec(), false, false);
    let items = process_package(&mut writer, &package, &archive).expect("processing succeeds");
    assert_eq!(items.len(), 1);
    assert!(items[0].skip_reason.is_none());
}

#[test]
fn unknown_extension_is_rejected() {
    let package = demo_package("https://files.example/demo-1.0.rar");
    let mut writer = GitFastImporter::new(1, b"code".to_vec(), false, false);
    let r = process_package(&mut writer, &package, &b"not an archive".to_vec());
    assert!(matches!(r, Err(DownloadError::UnknownArchive(_))));
    assert!(writer.take_output().is_empty());
}

#[test]
fn corrupt_container_aborts_the_package_without_output() {
    let package = demo_package("https://files.example/demo-1.0.zip");
    let mut writer = GitFastImporter::new(1, b"code".to_vec(), false, false);
    let r = process_package(&mut writer, &package, &b"certainly not a zip".to_vec());
    assert!(matches!(r, Err(DownloadError::ExtractionError(_))));
    // No partial commit: the writer was never touched.
    assert!(writer.take_output().is_empty());
}

#[test]
fn corrupt_tar_surfaces_a_read_error() {
    let package = demo_package("https://files.example/demo-1.0.tar.gz");
    let mut writer = GitFastImporter::new(1, b"code".to_vec(), false, false);
    let r = process_package(&mut writer, &package, &b"\x1f\x8b_not_gzip_after_all".to_vec());
    assert!(matches!(
        r,
        Err(DownloadError::ExtractionError(pypi_mirror::archive::ExtractionError::IOError))
    ));
    assert!(writer.take_output().is_empty());
}

#[test]
fn two_packages_share_one_stream_with_distinct_marks() {
    // Two packages written through the single serialized writer, as the
    // worker pool does, one critical section each.
    let first = zip_archive(&[("a/one.py", b"a = 1\n")]);
    let second = zip_archive(&[("b/two.py", b"b = 2\n")]);
    let p1 = demo_package("https://files.example/demo-1.0.zip");
    let mut p2 = demo_package("https://files.example/demo-2.0.zip");
    p2.project_version = b"2.0".to_vec();
    let writer = Mutex::new(GitFastImporter::new(2, b"code".to_vec(), false, false));
    {
        let mut w = writer.lock().unwrap();
        process_package(&mut w, &p1, &first).expect("first package");
    }
    {
        let mut w = writer.lock().unwrap();
        process_package(&mut w, &p2, &second).expect("second package");
    }
    let mut w = writer.lock().unwrap();
    w.finish();
    let out = w.take_output();
    // Two commits, non-overlapping mark references, one trailing terminal.
    assert_eq!(count_occurrences(&out, b"commit refs/heads/code\n"), 2);
    assert!(contains(&out, b"blob\nmark :1\n"));
    assert!(contains(&out, b"commit refs/heads/code\nmark :2\n"));
    assert!(contains(&out, b"blob\nmark :3\n"));
    assert!(contains(&out, b"commit refs/heads/code\nmark :4\n"));
    assert!(contains(&out, b"M 100644 :1 packages/demo/demo-1.0.zip/a/one.py\n"));
    assert!(contains(&out, b"M 100644 :3 packages/demo/demo-2.0.zip/b/two.py\n"));
    // The second commit chains to the first.
    assert!(contains(&out, b"from :2\n"));
    assert_eq!(count_occurrences(&out, b"done\n"), 1);
    assert!(out.ends_with(b"done\n"));
}

#[test]
fn write_package_contents_returns_records_unchanged() {
    let archive = zip_archive(&[("m.py", b"x\n")]);
    let (items, kept) = extract_package(ArchiveType::Zip, &archive, &b"p/".to_vec())
        .expect("extraction succeeds");
    let n = items.len();
    let mut writer = GitFastImporter::new(1, b"code".to_vec(), false, false);
    let returned = write_package_contents(&mut writer, &b"pkg".to_vec(), items, kept);
    assert_eq!(returned.len(), n);
}
