//! Tests of the shard index: capacity, processed flags, statistics and
//! package selection.

use pypi_mirror::repository::{normalize_project_name, select_packages, RepositoryIndex,
    RepositoryPackage};

fn package(name: &str, version: &str, time: i64, processed: bool) -> RepositoryPackage {
    RepositoryPackage {
        project_name: name.as_bytes().to_vec(),
        project_version: version.as_bytes().to_vec(),
        url: format!("https://files.example/{}-{}.tar.gz", name, version).into_bytes(),
        upload_time: time,
        processed,
    }
}

#[test]
fn extra_capacity_is_capacity_minus_held() {
    let idx = RepositoryIndex::new(1, 5, vec![package("a", "1", 10, false)]);
    assert_eq!(idx.extra_capacity(), 4);
    assert!(idx.has_capacity());
    let full = RepositoryIndex::new(2, 1, vec![package("a", "1", 10, false)]);
    assert_eq!(full.extra_capacity(), 0);
    assert!(!full.has_capacity());
}

#[test]
fn filling_beyond_capacity_is_fatal_and_changes_nothing() {
    // A shard of capacity 2 already holding 2 processed packages.
    let mut idx = RepositoryIndex::new(
        0,
        2,
        vec![package("a", "1", 10, true), package("b", "1", 20, true)],
    );
    let r = idx.fill_packages(vec![package("c", "1", 30, false)]);
    assert!(r.is_err());
    assert_eq!(idx.packages().len(), 2);
    assert_eq!(idx.extra_capacity(), 0);
}

#[test]
fn filling_within_capacity_appends_in_order() {
    let mut idx = RepositoryIndex::new(0, 3, vec![package("a", "1", 10, false)]);
    idx.fill_packages(vec![package("b", "1", 20, false), package("c", "1", 30, false)])
        .expect("fits");
    let names: Vec<_> = idx.packages().iter().map(|p| p.project_name.clone()).collect();
    assert_eq!(names, vec![b"a".to_vec(), b"b".to_vec(), b"c".to_vec()]);
}

#[test]
fn mark_as_processed_is_idempotent() {
    let mut idx = RepositoryIndex::new(
        0,
        3,
        vec![package("a", "1", 10, false), package("b", "1", 20, false), package(
            "c", "1", 30, false,
        )],
    );
    let done = vec![package("a", "1", 10, false), package("c", "1", 30, false)];
    idx.mark_packages_as_processed(done.clone());
    let flags_once: Vec<bool> = idx.packages().iter().map(|p| p.processed).collect();
    assert_eq!(flags_once, vec![true, false, true]);
    idx.mark_packages_as_processed(done);
    let flags_twice: Vec<bool> = idx.packages().iter().map(|p| p.processed).collect();
    assert_eq!(flags_twice, flags_once);
}

#[test]
fn identity_ignores_processed_flag_and_upload_time() {
    let mut idx = RepositoryIndex::new(0, 1, vec![package("a", "1", 10, false)]);
    // The completed copy carries a different flag; it still matches.
    idx.mark_packages_as_processed(vec![package("a", "1", 10, true)]);
    assert!(idx.packages()[0].processed);
}

#[test]
fn unprocessed_packages_preserve_order() {
    let idx = RepositoryIndex::new(
        0,
        4,
        vec![
            package("a", "1", 10, true),
            package("b", "1", 20, false),
            package("c", "1", 30, true),
            package("d", "1", 40, false),
        ],
    );
    let todo = idx.unprocessed_packages();
    let names: Vec<_> = todo.iter().map(|p| p.project_name.clone()).collect();
    assert_eq!(names, vec![b"b".to_vec(), b"d".to_vec()]);
}

#[test]
fn stats_report_bounds_and_counts() {
    let idx = RepositoryIndex::new(
        0,
        4,
        vec![
            package("a", "1", 300, true),
            package("b", "1", 100, false),
            package("c", "1", 200, true),
        ],
    );
    let stats = idx.stats();
    assert_eq!(stats.earliest_package, 100);
    assert_eq!(stats.latest_package, 300);
    assert_eq!(stats.total_packages, 3);
    assert_eq!(stats.done_packages, 2);
    assert_eq!(stats.percent_done(), 66);
}

#[test]
fn percent_done_rounds_down() {
    let idx = RepositoryIndex::new(0, 3, vec![package("a", "1", 1, true), package(
        "b", "1", 2, false,
    ), package("c", "1", 3, false)]);
    assert_eq!(idx.stats().percent_done(), 33);
}

#[test]
fn file_name_is_the_shard_number() {
    let idx = RepositoryIndex::new(7, 1, Vec::new());
    assert_eq!(idx.file_name(), b"7.json".to_vec());
    assert_eq!(idx.index(), 7);
    assert_eq!(idx.max_capacity(), 1);
}

#[test]
fn package_filename_and_prefix_come_from_the_url() {
    let p = package("demo", "1.0", 0, false);
    assert_eq!(p.package_filename(), Some(b"demo-1.0.tar.gz".to_vec()));
    assert_eq!(p.identifier(), Some(b"demo/1.0/demo-1.0.tar.gz".to_vec()));
    assert_eq!(p.file_prefix(), Some(b"packages/demo/demo-1.0.tar.gz/".to_vec()));
}

#[test]
fn unparsable_url_yields_no_filename() {
    let mut p = package("demo", "1.0", 0, false);
    p.url = b"not a url".to_vec();
    assert_eq!(p.package_filename(), None);
    assert_eq!(p.identifier(), None);
    assert_eq!(p.file_prefix(), None);
}

#[test]
fn fake_packages_carry_the_given_url() {
    let p = RepositoryPackage::fake_from_url(b"https://files.example/x.zip".to_vec());
    assert_eq!(p.project_name, b"fake".to_vec());
    assert_eq!(p.project_version, b"fake".to_vec());
    assert!(!p.processed);
}

#[test]
fn set_processed_flips_only_the_flag() {
    let mut p = package("a", "1", 10, false);
    p.set_processed(true);
    assert!(p.processed);
    assert_eq!(p.project_name, b"a".to_vec());
}

#[test]
fn select_packages_filters_by_prefix_and_limits() {
    let batch = vec![
        package("alpha", "1", 1, false),
        package("beta", "1", 2, false),
        package("alphabet", "1", 3, false),
    ];
    let chosen = select_packages(batch.clone(), Some(b"alpha".to_vec()), None);
    let names: Vec<_> = chosen.iter().map(|p| p.project_name.clone()).collect();
    assert_eq!(names, vec![b"alpha".to_vec(), b"alphabet".to_vec()]);
    let limited = select_packages(batch, Some(b"alpha".to_vec()), Some(1));
    assert_eq!(limited.len(), 1);
    assert_eq!(limited[0].project_name, b"alpha".to_vec());
}

#[test]
fn project_names_normalize_to_one_key() {
    assert_eq!(normalize_project_name(&b"My_Pkg.Name".to_vec()), b"my-pkg-name".to_vec());
    assert_eq!(normalize_project_name(&b"plain".to_vec()), b"plain".to_vec());
    assert_eq!(normalize_project_name(&Vec::new()), Vec::<u8>::new());
}

#[test]
fn select_packages_without_filter_keeps_everything() {
    let batch = vec![package("a", "1", 1, false), package("b", "1", 2, false)];
    let all = select_packages(batch.clone(), None, None);
    assert_eq!(all.len(), 2);
    let capped = select_packages(batch, None, Some(1));
    assert_eq!(capped.len(), 1);
}
