//! Tests of the content classifier: gates, hashes, line counts and path
//! normalization.

use pypi_mirror::content::{get_contents, Content, SkipReason, KB, MAX_NON_PYTHON_SIZE,
    MAX_PYTHON_SIZE};

fn hex(bytes: &[u8]) -> String {
    let mut s = String::new();
    for b in bytes {
        s.push_str(&format!("{:02x}", b));
    }
    s
}

fn classify(size: usize, data: &[u8], archive_path: &[u8], prefix: &[u8]) -> Content {
    get_contents(size, data.to_vec(), archive_path.to_vec(), &prefix.to_vec())
        .expect("digest computation failed")
}

fn reason_of(c: &Content) -> Option<SkipReason> {
    match c {
        Content::Skip { reason, .. } => Some(*reason),
        Content::Add { .. } => None,
    }
}

fn lines_of(c: &Content) -> Option<usize> {
    match c {
        Content::Skip { lines, .. } => *lines,
        Content::Add { lines, .. } => Some(*lines),
    }
}

fn hash_of(c: &Content) -> Vec<u8> {
    match c {
        Content::Skip { hash, .. } => hash.clone(),
        Content::Add { hash, .. } => hash.clone(),
    }
}

fn path_of(c: &Content) -> Vec<u8> {
    match c {
        Content::Skip { path, .. } => path.clone(),
        Content::Add { path, .. } => path.clone(),
    }
}

#[test]
fn blob_digest_of_empty_buffer() {
    let c = classify(0, b"", b"a.py", b"p/");
    assert_eq!(hex(&hash_of(&c)), "e69de29bb2d1d6434b8b29ae775ad8c2e48c5391");
}

#[test]
fn blob_digest_of_text_buffer() {
    let data = b"hello\n";
    let c = classify(data.len(), data, b"a.py", b"p/");
    assert_eq!(hex(&hash_of(&c)), "ce013625030ba8dba906f756967f9e9ca394464a");
}

#[test]
fn blob_digest_same_for_kept_and_skipped() {
    let data = b"hello\n";
    let kept = classify(data.len(), data, b"a.py", b"p/");
    let skipped = classify(data.len(), data, b"x/.git/config", b"p/");
    assert!(reason_of(&kept).is_none());
    assert!(reason_of(&skipped).is_some());
    assert_eq!(hash_of(&kept), hash_of(&skipped));
}

#[test]
fn binary_content_is_skipped() {
    let data = [0u8, 1, 2, 3, 0, 0, 7];
    let c = classify(data.len(), &data, b"a.py", b"p/");
    assert!(matches!(reason_of(&c), Some(SkipReason::Binary)));
    assert_eq!(lines_of(&c), None);
}

#[test]
fn binary_sniff_reads_only_first_kilobyte() {
    // Two buffers that agree on the first KB bytes are sniffed identically,
    // whatever follows.
    let mut a = vec![b'a'; KB];
    let mut b = vec![b'a'; KB];
    a.extend_from_slice(b"plain text tail\n");
    b.extend_from_slice(&[0u8, 0, 0, 0]);
    let ca = classify(a.len(), &a, b"f.py", b"p/");
    let cb = classify(b.len(), &b, b"f.py", b"p/");
    assert_eq!(reason_of(&ca).is_some(), reason_of(&cb).is_some());
    // A NUL inside the first KB is sniffed as binary.
    let mut c = vec![b'a'; 10];
    c[3] = 0;
    let cc = classify(c.len(), &c, b"f.py", b"p/");
    assert!(matches!(reason_of(&cc), Some(SkipReason::Binary)));
}

#[test]
fn empty_entry_is_skipped() {
    let c = classify(0, b"", b"a.py", b"p/");
    assert!(matches!(reason_of(&c), Some(SkipReason::Empty)));
    assert_eq!(lines_of(&c), Some(0));
}

#[test]
fn pyarmor_marker_is_skipped_as_binary() {
    let data = b"__pyarmor__ bytecode follows\n";
    let c = classify(data.len(), data, b"a.py", b"p/");
    assert!(matches!(reason_of(&c), Some(SkipReason::Binary)));
    assert_eq!(lines_of(&c), Some(1));
}

#[test]
fn large_object_pointer_is_skipped() {
    let data = b"version https://git-lfs.github.com/spec/v1\noid sha256:aa\n";
    let c = classify(data.len(), data, b"a.py", b"p/");
    assert!(matches!(reason_of(&c), Some(SkipReason::VersionControlSystem)));
}

#[test]
fn size_gate_for_python_paths() {
    // Enough line terminators to stay clear of the long-lines heuristic.
    let data = b"a\nb\nc\nd\ne\n";
    // Declared sizes from 1 up to MAX_PYTHON_SIZE are never skipped.
    let ok = classify(MAX_PYTHON_SIZE, data, b"a.py", b"p/");
    assert!(reason_of(&ok).is_none());
    // Above the ceiling the entry is too large.
    let big = classify(MAX_PYTHON_SIZE + 1, data, b"a.py", b"p/");
    assert!(matches!(reason_of(&big), Some(SkipReason::TooLarge)));
}

#[test]
fn size_gate_for_other_paths() {
    let data = b"a\nb\nc\nd\ne\n";
    let ok = classify(MAX_NON_PYTHON_SIZE, data, b"a.txt", b"p/");
    assert!(reason_of(&ok).is_none());
    let big = classify(MAX_NON_PYTHON_SIZE + 1, data, b"a.txt", b"p/");
    assert!(matches!(reason_of(&big), Some(SkipReason::TooLarge)));
    let py_sized = classify(MAX_NON_PYTHON_SIZE + 1, data, b"a.py", b"p/");
    assert!(reason_of(&py_sized).is_none());
}

#[test]
fn version_control_directories_are_skipped() {
    for p in [&b"x/.git/config"[..], b".hg/hgrc", b"a/.svn/entries"] {
        let data = b"plain text\n";
        let c = classify(data.len(), data, p, b"p/");
        assert!(matches!(reason_of(&c), Some(SkipReason::VersionControlSystem)));
    }
}

#[test]
fn virtualenv_directories_are_skipped() {
    for p in [&b"x/.venv/lib/mod.py"[..], b"venv/bin/act", b"y/site-packages/pkg/m.py"] {
        let data = b"print(1)\n";
        let c = classify(data.len(), data, p, b"p/");
        assert!(matches!(reason_of(&c), Some(SkipReason::Venv)));
    }
}

#[test]
fn long_buffers_with_few_line_breaks_are_skipped() {
    let mut data = vec![b'a'; 50 * KB];
    data[10] = b'\n';
    let c = classify(data.len(), &data, b"a.py", b"p/");
    assert!(matches!(reason_of(&c), Some(SkipReason::LongLines)));
    // With five line terminators the same buffer is kept.
    let mut ok = data.clone();
    for i in 0..5 {
        ok[i] = b'\n';
    }
    let c2 = classify(ok.len(), &ok, b"a.py", b"p/");
    assert!(reason_of(&c2).is_none());
}

#[test]
fn kept_source_reports_line_terminators() {
    let data = b"a = 1\nb = 2\nc\n";
    let c = classify(data.len(), data, b"m.py", b"p/");
    assert!(reason_of(&c).is_none());
    assert_eq!(lines_of(&c), Some(3));
    match c {
        Content::Add { contents, .. } => assert_eq!(contents, data.to_vec()),
        Content::Skip { .. } => panic!("expected kept content"),
    }
}

#[test]
fn path_normalization_rules() {
    let data = b"x\n";
    // Newlines in the archive path become a placeholder.
    let c = classify(data.len(), data, b"a\nb.py", b"p/");
    assert_eq!(path_of(&c), b"p/a_newlineb.py".to_vec());
    // Doubled separators collapse.
    let c = classify(data.len(), data, b"a//b.py", b"p/");
    assert_eq!(path_of(&c), b"p/a/b.py".to_vec());
    // A trailing version-control directory name is renamed.
    let c = classify(data.len(), data, b"hooks.git", b"p/");
    assert_eq!(path_of(&c), b"p/hooks.git_".to_vec());
    // `./` segments are stripped.
    let c = classify(data.len(), data, b"./a/./b.py", b"p/");
    assert_eq!(path_of(&c), b"p/a/b.py".to_vec());
}

#[test]
fn skip_reason_labels() {
    assert_eq!(SkipReason::Binary.label(), "binary");
    assert_eq!(SkipReason::LongLines.label(), "text-long-lines");
    assert_eq!(SkipReason::TooLarge.label(), "too-large");
    assert_eq!(SkipReason::Empty.label(), "empty");
    assert_eq!(SkipReason::VersionControlSystem.label(), "version-control");
    assert_eq!(SkipReason::Venv.label(), "virtualenv");
}
