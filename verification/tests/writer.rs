//! Tests of the fast-import stream writer: byte-exact records, mark
//! allocation, anchoring, progress cadence and the terminal marker.

use pypi_mirror::git::GitFastImporter;

fn find(haystack: &[u8], needle: &[u8]) -> Option<usize> {
    if needle.len() > haystack.len() {
        return None;
    }
    (0..=haystack.len() - needle.len()).find(|&i| &haystack[i..i + needle.len()] == needle)
}

fn contains(haystack: &[u8], needle: &[u8]) -> bool {
    find(haystack, needle).is_some()
}

#[test]
fn blob_record_bytes_are_exact() {
    let mut w = GitFastImporter::new(1, b"code".to_vec(), false, false);
    let mark = w.add_file(b"hello".to_vec());
    assert_eq!(mark, 1);
    let out = w.take_output();
    assert_eq!(out, b"blob\nmark :1\ndata 5\nhello\n".to_vec());
}

#[test]
fn marks_increase_strictly_from_one() {
    let mut w = GitFastImporter::new(3, b"code".to_vec(), false, false);
    let a = w.add_file(b"a".to_vec());
    let b = w.add_file(b"b".to_vec());
    let c = w.add_file(b"c".to_vec());
    assert_eq!((a, b, c), (1, 2, 3));
}

#[test]
fn dry_run_replaces_blob_payloads() {
    let mut w = GitFastImporter::new(1, b"code".to_vec(), false, true);
    w.add_file(b"some long payload".to_vec());
    let out = w.take_output();
    assert_eq!(out, b"blob\nmark :1\ndata 1\nd\n".to_vec());
}

#[test]
fn commit_record_structure() {
    let mut w = GitFastImporter::new(1, b"code".to_vec(), false, false);
    let mark = w.add_file(b"hello".to_vec());
    w.take_output();
    w.flush_commit(&b"demo/1.0/demo-1.0.zip".to_vec(), vec![(mark, b"p/a.py".to_vec())]);
    let out = w.take_output();
    assert!(out.starts_with(b"commit refs/heads/code\nmark :2\ncommitter Bot <41898282+github-actions[bot]@users.noreply.github.com> "));
    let tail_at = find(&out, b" +0000\n").expect("committer line terminator");
    let tail = &out[tail_at..];
    assert_eq!(
        tail,
        &b" +0000\ndata 33\nAdd package demo/1.0/demo-1.0.zip\nM 100644 :1 p/a.py\n\n"[..]
    );
}

#[test]
fn commit_skips_empty_paths() {
    let mut w = GitFastImporter::new(1, b"code".to_vec(), false, false);
    let mark = w.add_file(b"x".to_vec());
    w.flush_commit(&b"p".to_vec(), vec![(mark, Vec::new())]);
    let out = w.take_output();
    assert!(!contains(&out, b"M 100644"));
}

#[test]
fn first_commit_anchors_to_existing_branch() {
    let mut w = GitFastImporter::new(2, b"code".to_vec(), true, false);
    w.flush_commit(&b"one".to_vec(), Vec::new());
    let first = w.take_output();
    assert!(contains(&first, b"from code\n"));
    assert!(!contains(&first, b"from :"));
    w.flush_commit(&b"two".to_vec(), Vec::new());
    let second = w.take_output();
    assert!(!contains(&second, b"from code\n"));
    assert!(contains(&second, b"from :1\n"));
}

#[test]
fn commits_chain_through_previous_marks() {
    let mut w = GitFastImporter::new(2, b"code".to_vec(), false, false);
    w.flush_commit(&b"one".to_vec(), Vec::new());
    let first = w.take_output();
    assert!(!contains(&first, b"from "));
    w.flush_commit(&b"two".to_vec(), Vec::new());
    let second = w.take_output();
    assert!(contains(&second, b"from :1\n"));
}

#[test]
fn progress_line_appears_at_cadence() {
    let mut w = GitFastImporter::new(20, b"code".to_vec(), false, false);
    for i in 0..10 {
        w.flush_commit(&b"p".to_vec(), Vec::new());
        w.flush_progress();
        let out = w.take_output();
        if i == 9 {
            assert!(contains(&out, b"progress Commit: 10/20\n"));
        } else {
            assert!(!contains(&out, b"progress"));
        }
    }
}

#[test]
fn finish_emits_terminal_marker() {
    let mut w = GitFastImporter::new(0, b"code".to_vec(), false, false);
    w.finish();
    let out = w.take_output();
    assert_eq!(out, b"done\n".to_vec());
}

#[test]
fn take_output_drains_pending_bytes() {
    let mut w = GitFastImporter::new(1, b"code".to_vec(), false, false);
    w.add_file(b"x".to_vec());
    let first = w.take_output();
    assert!(!first.is_empty());
    let second = w.take_output();
    assert!(second.is_empty());
}
