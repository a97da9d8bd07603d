use tree_merger::walk::{Entry, Walker};
use tree_merger::{Conf, ConfError, Merger};

fn conf(patterns: &[&str]) -> Conf {
    Conf::with_roots(
        "/src".to_string(),
        "/dst".to_string(),
        patterns.iter().map(|p| p.to_string()).collect(),
        4,
    )
}

#[test]
fn conf_error_keeps_message() {
    let e = ConfError::new("Cannot get path for json");
    assert_eq!(e.message(), "Cannot get path for json");
}

#[test]
fn getters_return_roots() {
    let c = conf(&["target"]);
    assert_eq!(c.source(), "/src");
    assert_eq!(c.source_as_str(), "/src");
    assert_eq!(c.dest(), "/dst");
    assert_eq!(c.dest_as_str(), "/dst");
    assert_eq!(c.thread_count(), 4);
    assert_eq!(c.black_list_patterns(), &vec!["target".to_string()]);
}

#[test]
fn valid_only_when_both_roots_are_directories() {
    let c = conf(&[]);
    assert!(c.is_valid(true, true));
    assert!(!c.is_valid(false, true));
    assert!(!c.is_valid(true, false));
    let zero_workers = Conf::with_roots("/a".to_string(), "/b".to_string(), vec![], 0);
    assert!(!zero_workers.is_valid(true, true));
    let empty_root = Conf::with_roots(String::new(), "/b".to_string(), vec![], 1);
    assert!(!empty_root.is_valid(true, true));
}

#[test]
fn checked_reports_invalid_folders() {
    assert!(conf(&[]).checked(true, true).is_ok());
    let e = conf(&[]).checked(true, false).unwrap_err();
    assert_eq!(e.message(), "Configuration has invalid folders");
}

#[test]
fn dir_name_matching_is_exact_and_case_sensitive() {
    let c = conf(&["node_modules", ".git"]);
    assert!(!c.is_dir_name_allowed("node_modules"));
    assert!(!c.is_dir_name_allowed(".git"));
    assert!(c.is_dir_name_allowed("Node_Modules"));
    assert!(c.is_dir_name_allowed("node_modules2"));
    assert!(c.is_dir_name_allowed("src"));
    assert!(conf(&[]).is_dir_name_allowed("node_modules"));
}

#[test]
fn files_are_always_allowed() {
    let m = Merger::new(conf(&["node_modules"]));
    assert!(m.is_allowed(false, Some("node_modules")));
    assert!(m.is_allowed(false, None));
    assert!(!m.is_allowed(true, Some("node_modules")));
    assert!(!m.is_allowed(true, None));
    assert!(m.is_allowed(true, Some("lib")));
    assert_eq!(m.conf().source(), "/src");
}

#[test]
fn excluded_directory_hides_whole_subtree() {
    let m = Merger::new(conf(&["node_modules"]));
    let p = |s: &[&str]| s.iter().map(|x| x.to_string()).collect::<Vec<String>>();
    assert!(!m.is_path_visited(&p(&["node_modules", "pkg.js"])));
    assert!(!m.is_path_visited(&p(&["a", "node_modules", "b", "c.js"])));
    assert!(m.is_path_visited(&p(&["node_modules"])));
    assert!(m.is_path_visited(&p(&["a", "b.txt"])));
    assert!(m.is_path_visited(&p(&[])));
}

fn segs(s: &[&str]) -> Vec<String> {
    s.iter().map(|x| x.to_string()).collect()
}

fn entry(name: &str, is_dir: bool) -> Entry {
    Entry { name: name.to_string(), is_dir }
}

#[test]
fn walker_skips_excluded_directories() {
    let m = Merger::new(conf(&["node_modules"]));
    let mut w = Walker::new(&m, Some("src"));
    let root = w.next_dir().unwrap();
    assert!(root.is_empty());
    let files = w.take_listing(
        &m,
        &root,
        &vec![entry("a.txt", false), entry("node_modules", true), entry("sub", true), entry("node_modules.txt", false)],
    );
    assert_eq!(files, vec![segs(&["a.txt"]), segs(&["node_modules.txt"])]);
    let sub = w.next_dir().unwrap();
    assert_eq!(sub, segs(&["sub"]));
    let files = w.take_listing(&m, &sub, &vec![entry("b.txt", false)]);
    assert_eq!(files, vec![segs(&["sub", "b.txt"])]);
    assert!(w.next_dir().is_none());
}

#[test]
fn walker_with_excluded_root_lists_nothing() {
    let m = Merger::new(conf(&["node_modules"]));
    assert!(Walker::new(&m, Some("node_modules")).next_dir().is_none());
    assert!(Walker::new(&m, None).next_dir().is_none());
}
