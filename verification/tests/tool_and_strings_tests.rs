use repo_scan::strings::{contains_substr, find_first, replace_first, str_eq, trim};
use repo_scan::tool::{get_git_origin_url, set_git_origin_url, ToolOutput, ToolRun};

fn ran(success: bool, stdout: Option<&str>, stderr: &str) -> ToolRun {
    ToolRun::Ran(ToolOutput {
        success,
        stdout: stdout.map(|s| s.to_string()),
        stderr: stderr.to_string(),
    })
}

#[test]
fn find_first_returns_the_first_occurrence() {
    assert_eq!(find_first("abcabc", "bc"), Some(1));
    assert_eq!(find_first("abc", "x"), None);
    assert_eq!(find_first("abc", ""), Some(0));
    assert_eq!(find_first("ab", "abc"), None);
    assert_eq!(find_first("", ""), Some(0));
}

#[test]
fn contains_substr_agrees_with_find_first() {
    assert!(contains_substr("https://old.host/x", "old.host"));
    assert!(!contains_substr("https://other/x", "old.host"));
    assert!(contains_substr("anything", ""));
}

#[test]
fn replace_first_changes_only_the_first_occurrence() {
    assert_eq!(replace_first("aXbXc", "X", "YY"), "aYYbXc");
    assert_eq!(replace_first("abc", "x", "y"), "abc");
    assert_eq!(replace_first("abc", "", "Z"), "Zabc");
}

#[test]
fn str_eq_compares_exactly() {
    assert!(str_eq("", ""));
    assert!(str_eq("abc", "abc"));
    assert!(!str_eq("abc", "abd"));
    assert!(!str_eq("abc", "ab"));
}

#[test]
fn trim_strips_leading_and_trailing_whitespace() {
    assert_eq!(trim("  https://h/x.git \n"), "https://h/x.git");
    assert_eq!(trim("\t\r\n "), "");
    assert_eq!(trim(""), "");
    assert_eq!(trim("a b"), "a b");
}

#[test]
fn read_url_trims_successful_output() {
    let r = get_git_origin_url(&ran(true, Some("https://h/x.git\n"), ""));
    assert_eq!(r.as_deref(), Some("https://h/x.git"));
}

#[test]
fn read_url_yields_nothing_on_failure() {
    assert!(get_git_origin_url(&ran(false, Some("ignored"), "boom")).is_none());
    assert!(get_git_origin_url(&ran(true, None, "")).is_none());
    assert!(get_git_origin_url(&ToolRun::NotRun("no tool".to_string())).is_none());
}

#[test]
fn set_url_succeeds_on_exit_zero() {
    assert_eq!(set_git_origin_url(&ran(true, None, "")), Ok(()));
}

#[test]
fn set_url_reports_captured_error_text() {
    assert_eq!(
        set_git_origin_url(&ran(false, None, "fatal: not a git repository")),
        Err("fatal: not a git repository".to_string()),
    );
    assert_eq!(
        set_git_origin_url(&ToolRun::NotRun("spawn failed".to_string())),
        Err("spawn failed".to_string()),
    );
}
