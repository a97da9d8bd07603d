use tree_merger::equality::{compare_chunks, sizes_verdict, Verdict};
use tree_merger::merger::FileOutcome;
use tree_merger::walk::{Entry, Walker};
use tree_merger::{Conf, Merger};

/// Runs the comparison steps on two contents, read in chunks of `chunk`.
fn equal(a: &[u8], b: &[u8], chunk: usize) -> bool {
    let mut v = sizes_verdict(a.len() as u64, b.len() as u64);
    let mut pos = 0;
    while v == Verdict::More {
        let ea = (pos + chunk).min(a.len());
        let eb = (pos + chunk).min(b.len());
        v = compare_chunks(&a[pos.min(a.len())..ea], &b[pos.min(b.len())..eb]);
        pos += chunk;
    }
    v == Verdict::Same
}

#[test]
fn size_check_decides_first() {
    assert_eq!(sizes_verdict(3, 4), Verdict::Differ);
    assert_eq!(sizes_verdict(4, 4), Verdict::More);
}

#[test]
fn chunk_steps() {
    assert_eq!(compare_chunks(b"ab", b"ab"), Verdict::More);
    assert_eq!(compare_chunks(b"ab", b"ac"), Verdict::Differ);
    assert_eq!(compare_chunks(b"ab", b"a"), Verdict::Differ);
    assert_eq!(compare_chunks(b"", b""), Verdict::Same);
    assert_eq!(compare_chunks(b"", b"a"), Verdict::Differ);
}

#[test]
fn identical_content_is_equal() {
    let data: Vec<u8> = (0..1000u32).map(|i| (i % 251) as u8).collect();
    assert!(equal(&data, &data.clone(), 64));
    assert!(equal(&data, &data.clone(), 1));
    assert!(equal(b"", b"", 8));
}

#[test]
fn different_content_is_unequal() {
    let a: Vec<u8> = vec![7; 300];
    let mut b = a.clone();
    b[299] = 8;
    assert!(!equal(&a, &b, 64));
    assert!(!equal(b"hi", b"hi!", 64));
}

#[test]
fn stage_decisions() {
    assert!(matches!(Merger::prune_outcome(false), Some(FileOutcome::Deleted)));
    assert!(Merger::prune_outcome(true).is_none());
    assert!(matches!(Merger::merge_outcome(false, false), FileOutcome::Created));
    assert!(matches!(Merger::merge_outcome(false, true), FileOutcome::Created));
    assert!(matches!(Merger::merge_outcome(true, false), FileOutcome::Replaced));
    assert!(matches!(Merger::merge_outcome(true, true), FileOutcome::Unchanged));
}

#[test]
fn second_merge_leaves_files_unchanged() {
    // first run: the mirror differs and is replaced; second run compares equal
    assert!(matches!(Merger::merge_outcome(true, equal(b"new", b"old", 64)), FileOutcome::Replaced));
    assert!(matches!(Merger::merge_outcome(true, equal(b"new", b"new", 64)), FileOutcome::Unchanged));
}

#[test]
fn scenario_prune_replace_keep() {
    let m = Merger::new(Conf::with_roots("/s".to_string(), "/d".to_string(), vec![], 2));
    let src = m.conf().source().to_string();
    let dst = m.conf().dest().to_string();
    let source_files: Vec<(&str, &[u8])> = vec![("/s/a.txt", b"hi"), ("/s/sub/b.txt", b"yo")];
    let dest_files: Vec<(&str, &[u8])> = vec![("/d/a.txt", b"hi"), ("/d/sub/b.txt", b"no"), ("/d/extra.txt", b"x")];
    let lookup = |files: &Vec<(&str, &[u8])>, p: &str| files.iter().find(|f| f.0 == p).map(|f| f.1.to_vec());

    // prune stage
    let mut deleted = Vec::new();
    for (f, _) in &dest_files {
        let mirror = Merger::get_mirror(f, &dst, &src).unwrap();
        if let Some(FileOutcome::Deleted) = Merger::prune_outcome(lookup(&source_files, &mirror).is_some()) {
            deleted.push(f.to_string());
        }
    }
    assert_eq!(deleted, vec!["/d/extra.txt".to_string()]);

    // mirror stage
    let mut outcomes = Vec::new();
    for (f, content) in &source_files {
        let mirror = Merger::get_mirror(f, &src, &dst).unwrap();
        let existing = lookup(&dest_files, &mirror);
        let same = existing.as_ref().map(|e| equal(content, e, 64)).unwrap_or(false);
        outcomes.push((mirror, Merger::merge_outcome(existing.is_some(), same)));
    }
    assert_eq!(outcomes[0].0, "/d/a.txt");
    assert!(matches!(outcomes[0].1, FileOutcome::Unchanged));
    assert_eq!(outcomes[1].0, "/d/sub/b.txt");
    assert!(matches!(outcomes[1].1, FileOutcome::Replaced));
}

#[test]
fn scenario_excluded_directory_not_created() {
    let m = Merger::new(Conf::with_roots("/s".to_string(), "/d".to_string(), vec!["node_modules".to_string()], 1));
    // the source walk meets node_modules/ at the root and does not enter it
    let mut w = Walker::new(&m, Some("s"));
    let root = w.next_dir().unwrap();
    let files = w.take_listing(&m, &root, &vec![Entry { name: "node_modules".to_string(), is_dir: true }]);
    assert!(files.is_empty());
    assert!(w.next_dir().is_none());
    assert!(!m.is_allowed(true, Some("node_modules")));
    assert!(!m.is_path_visited(&vec!["node_modules".to_string(), "pkg.js".to_string()]));
}
