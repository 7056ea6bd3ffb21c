//! Tests of archive-type mapping, extension parsing, shard repository
//! naming, fetch-status classification and upload payloads.

use pypi_mirror::archive::ArchiveType;
use pypi_mirror::extract::{classify_status, extension_bytes, DownloadError};
use pypi_mirror::github_data::{build_put_file, DataRepo};

#[test]
fn archive_types_follow_the_extension() {
    assert_eq!(ArchiveType::from_extension(&b"egg".to_vec()), Some(ArchiveType::Zip));
    assert_eq!(ArchiveType::from_extension(&b"zip".to_vec()), Some(ArchiveType::Zip));
    assert_eq!(ArchiveType::from_extension(&b"whl".to_vec()), Some(ArchiveType::Zip));
    assert_eq!(ArchiveType::from_extension(&b"exe".to_vec()), Some(ArchiveType::Exe));
    assert_eq!(ArchiveType::from_extension(&b"gz".to_vec()), Some(ArchiveType::TarGz));
    assert_eq!(ArchiveType::from_extension(&b"bz2".to_vec()), Some(ArchiveType::TarBz));
    assert_eq!(ArchiveType::from_extension(&b"rar".to_vec()), None);
}

#[test]
fn extensions_follow_the_last_dot() {
    assert_eq!(extension_bytes(&b"demo-1.0.tar.gz".to_vec()), Some(b"gz".to_vec()));
    assert_eq!(extension_bytes(&b"demo.zip".to_vec()), Some(b"zip".to_vec()));
    assert_eq!(extension_bytes(&b"noext".to_vec()), None);
    assert_eq!(extension_bytes(&b".gitignore".to_vec()), None);
}

#[test]
fn repo_names_encode_their_shard_number() {
    let repo = DataRepo { name: b"pypi-mirror-123".to_vec(), size: 42 };
    assert_eq!(repo.repo_index_integer(), 123);
    let zero = DataRepo { name: b"pypi-mirror-0".to_vec(), size: 0 };
    assert_eq!(zero.repo_index_integer(), 0);
}

#[test]
fn missing_archives_are_a_soft_outcome() {
    assert!(matches!(classify_status(404), DownloadError::Missing));
    assert!(matches!(classify_status(500), DownloadError::UnexpectedStatus(500)));
    assert!(matches!(classify_status(403), DownloadError::UnexpectedStatus(403)));
}

#[test]
fn index_uploads_carry_base64_content() {
    let put = build_put_file(&b"hello".to_vec(), None);
    assert_eq!(put.message, b"Adding index".to_vec());
    assert_eq!(put.content, b"aGVsbG8=".to_vec());
    assert!(put.sha.is_none());
    let put2 = build_put_file(&b"".to_vec(), Some(b"abc123".to_vec()));
    assert_eq!(put2.content, b"".to_vec());
    assert_eq!(put2.sha, Some(b"abc123".to_vec()));
}
