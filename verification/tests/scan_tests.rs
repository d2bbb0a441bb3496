use repo_scan::scan::{classify_repo, scan_repositories, ScanEvent, ScanRoot};
use repo_scan::tree::{is_git_repo, is_skipped_dir_name, DirNode};

fn dir(name: &str, path: &str, meta: bool, origin: Option<&str>, children: Vec<DirNode>) -> DirNode {
    DirNode {
        name: name.to_string(),
        path: path.to_string(),
        has_metadata_dir: meta,
        origin_url: origin.map(|s| s.to_string()),
        children,
    }
}

#[test]
fn detector_sees_metadata_dir() {
    let with_meta = dir("a", "/r/a", true, None, vec![]);
    let without_meta = dir("b", "/r/b", false, None, vec![]);
    assert!(is_git_repo(&with_meta));
    assert!(!is_git_repo(&without_meta));
}

#[test]
fn skip_set_is_exact() {
    assert!(is_skipped_dir_name(".git"));
    assert!(is_skipped_dir_name("node_modules"));
    assert!(!is_skipped_dir_name("src"));
    assert!(!is_skipped_dir_name(""));
    assert!(!is_skipped_dir_name(".gitx"));
}

#[test]
fn missing_root_is_rejected() {
    let r = scan_repositories(&ScanRoot::Missing, "old", "new");
    assert_eq!(r.unwrap_err(), "work directory does not exist");
}

#[test]
fn non_directory_root_is_rejected() {
    let r = scan_repositories(&ScanRoot::NotDirectory, "old", "new");
    assert_eq!(r.unwrap_err(), "the given path is not a directory");
}

#[test]
fn scan_without_repos_counts_non_skipped_dirs() {
    let tree = dir(
        "root",
        "/r",
        false,
        None,
        vec![
            dir("a", "/r/a", false, None, vec![dir("d", "/r/a/d", false, None, vec![])]),
            dir(".git", "/r/.git", false, None, vec![dir("x", "/r/.git/x", false, None, vec![])]),
            dir("node_modules", "/r/node_modules", false, None, vec![]),
            dir("b", "/r/b", false, None, vec![]),
        ],
    );
    let (res, _events) = scan_repositories(&ScanRoot::Tree(tree), "old", "new").unwrap();
    assert_eq!(res.repo_count, 0);
    assert!(res.repos.is_empty());
    assert_eq!(res.total_dirs, 3);
}

#[test]
fn repository_children_are_not_counted() {
    let inner = dir("inner", "/r/repo/inner", true, Some("https://h/i.git"), vec![]);
    let repo = dir("repo", "/r/repo", true, Some("https://h/r.git"), vec![inner]);
    let tree = dir("root", "/r", false, None, vec![repo]);
    let (res, _events) = scan_repositories(&ScanRoot::Tree(tree), "h", "k").unwrap();
    assert_eq!(res.total_dirs, 1);
    assert_eq!(res.repo_count, 1);
    assert_eq!(res.repos[0].path, "/r/repo");
}

#[test]
fn repository_without_readable_url_is_not_recorded_nor_entered() {
    let child = dir("sub", "/r/repo/sub", false, None, vec![]);
    let repo = dir("repo", "/r/repo", true, None, vec![child]);
    let tree = dir("root", "/r", false, None, vec![repo]);
    let (res, _events) = scan_repositories(&ScanRoot::Tree(tree), "old", "new").unwrap();
    assert_eq!(res.total_dirs, 1);
    assert_eq!(res.repo_count, 0);
}

#[test]
fn root_itself_is_never_classified() {
    let a = dir("a", "/r/a", false, None, vec![]);
    let tree = dir("root", "/r", true, Some("https://old.host/x.git"), vec![a]);
    let (res, _events) = scan_repositories(&ScanRoot::Tree(tree), "old.host", "new.host").unwrap();
    assert_eq!(res.repo_count, 0);
    assert_eq!(res.total_dirs, 1);
}

#[test]
fn matched_repo_rewrites_first_occurrence_only() {
    let info = classify_repo(
        &"/r/a".to_string(),
        &"https://old.host/old.host/x.git".to_string(),
        "old.host",
        "new.host",
    );
    assert!(info.matched);
    assert_eq!(info.old_url, "https://old.host/old.host/x.git");
    assert_eq!(info.new_url, "https://new.host/old.host/x.git");
}

#[test]
fn unmatched_repo_has_empty_new_url() {
    let info = classify_repo(&"/r/a".to_string(), &"https://other.com/y.git".to_string(), "old.host", "new.host");
    assert!(!info.matched);
    assert_eq!(info.new_url, "");
}

#[test]
fn end_to_end_example() {
    let a = dir("a", "/work/a", true, Some("https://old.example.com/x.git"), vec![]);
    let c = dir("c", "/work/b/c", true, Some("https://other.com/y.git"), vec![]);
    let b = dir("b", "/work/b", false, None, vec![c]);
    let root = dir("work", "/work", false, None, vec![a, b]);
    let (res, events) =
        scan_repositories(&ScanRoot::Tree(root), "old.example.com", "new.example.com").unwrap();
    assert_eq!(res.total_dirs, 3);
    assert_eq!(res.repo_count, 2);
    assert_eq!(res.repos.len(), 2);
    assert_eq!(res.repos[0].path, "/work/a");
    assert!(res.repos[0].matched);
    assert_eq!(res.repos[0].old_url, "https://old.example.com/x.git");
    assert_eq!(res.repos[0].new_url, "https://new.example.com/x.git");
    assert_eq!(res.repos[1].path, "/work/b/c");
    assert!(!res.repos[1].matched);
    assert_eq!(res.repos[1].new_url, "");
    let expected = vec![
        ScanEvent::Started("/work".to_string()),
        ScanEvent::Visiting("/work/a".to_string()),
        ScanEvent::RepoFound("/work/a".to_string()),
        ScanEvent::Matched("/work/a".to_string()),
        ScanEvent::Visiting("/work/b".to_string()),
        ScanEvent::Visiting("/work/b/c".to_string()),
        ScanEvent::RepoFound("/work/b/c".to_string()),
        ScanEvent::Unmatched("/work/b/c".to_string()),
        ScanEvent::Completed(3, 2),
    ];
    assert_eq!(events, expected);
}

#[test]
fn repos_inside_skipped_dirs_are_not_found() {
    let hidden = dir("r", "/r/node_modules/r", true, Some("https://old.host/z.git"), vec![]);
    let cache = dir("node_modules", "/r/node_modules", false, None, vec![hidden]);
    let tree = dir("root", "/r", false, None, vec![cache]);
    let (res, _events) = scan_repositories(&ScanRoot::Tree(tree), "old.host", "new.host").unwrap();
    assert_eq!(res.total_dirs, 0);
    assert_eq!(res.repo_count, 0);
}

#[test]
fn nested_directories_are_counted_deeply() {
    let d3 = dir("d3", "/r/d1/d2/d3", false, None, vec![]);
    let d2 = dir("d2", "/r/d1/d2", false, None, vec![d3]);
    let d1 = dir("d1", "/r/d1", false, None, vec![d2]);
    let tree = dir("root", "/r", false, None, vec![d1]);
    let (res, _events) = scan_repositories(&ScanRoot::Tree(tree), "o", "n").unwrap();
    assert_eq!(res.total_dirs, 3);
    assert_eq!(res.repo_count, 0);
}

#[test]
fn empty_old_domain_matches_at_start() {
    let info = classify_repo(&"/r/a".to_string(), &"abc".to_string(), "", "X");
    assert!(info.matched);
    assert_eq!(info.new_url, "Xabc");
}
