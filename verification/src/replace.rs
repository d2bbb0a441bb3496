//! The validation chain that guards rewriting a repository's origin URL.
//!
//! A rewrite never raises: every failure is reported inside the returned
//! `ReplaceResult`. The chain first checks what was observed about the
//! repository (the path exists, it is a repository, its current URL is
//! readable and still the expected one); only then may the caller attempt
//! the write, whose outcome is folded into the final result.

use vstd::prelude::*;
use crate::strings::{contains_substring, match_at, str_eq};
use vstd::string::*;

verus! {

/// The outcome of one attempted URL rewrite. `error` is present exactly
/// when `success` is false.
#[derive(Debug, Clone, PartialEq, Eq)]
pub struct ReplaceResult {
    pub success: bool,
    pub path: String,
    pub old_url: String,
    pub new_url: String,
    pub error: Option<String>,
}

/// Mathematical counterpart of `ReplaceResult`.
#[verifier::ext_equal]
pub ghost struct ReplaceRec {
    pub success: bool,
    pub path: Seq<char>,
    pub old_url: Seq<char>,
    pub new_url: Seq<char>,
    pub error: Option<Seq<char>>,
}

impl DeepView for ReplaceResult {
    type V = ReplaceRec;

    open spec fn deep_view(&self) -> ReplaceRec {
        ReplaceRec {
            success: self.success,
            path: self.path@,
            old_url: self.old_url@,
            new_url: self.new_url@,
            error: match self.error {
                Some(e) => Some(e@),
                None => None,
            },
        }
    }
}

/// The error reported when the repository's URL is no longer the expected
/// one; it carries the current URL.
pub open spec fn mismatch_error(current: Seq<char>) -> Seq<char> {
    "current remote URL does not match: "@ + current
}

/// The decision of the validation chain, in order: the path must exist, be
/// a repository, have a readable current URL, and that URL must equal the
/// expected one. `Some` carries the error of the first failing step; `None`
/// means the write may proceed.
pub open spec fn replace_rejection(
    path_exists: bool,
    is_repo: bool,
    current: Option<Seq<char>>,
    old_url: Seq<char>,
) -> Option<Seq<char>> {
    if !path_exists {
        Some("path does not exist"@)
    } else if !is_repo {
        Some("not a valid repository"@)
    } else {
        match current {
            None => Some("cannot read current remote URL"@),
            Some(c) => if c != old_url {
                Some(mismatch_error(c))
            } else {
                None
            },
        }
    }
}

/// The result reported once the write was attempted: success with a cleared
/// error, or the write's own error text.
pub open spec fn finished_rec(
    path: Seq<char>,
    old_url: Seq<char>,
    new_url: Seq<char>,
    set_result: Result<(), Seq<char>>,
) -> ReplaceRec {
    match set_result {
        Ok(_) => ReplaceRec {
            success: true,
            path: path,
            old_url: old_url,
            new_url: new_url,
            error: None,
        },
        Err(e) => ReplaceRec {
            success: false,
            path: path,
            old_url: old_url,
            new_url: new_url,
            error: Some(e),
        },
    }
}

fn fail_result(repo_path: &String, old_url: &String, new_url: &String, message: String) -> (r:
    ReplaceResult)
    ensures
        r.deep_view() == (ReplaceRec {
            success: false,
            path: repo_path@,
            old_url: old_url@,
            new_url: new_url@,
            error: Some(message@),
        }),
{
    ReplaceResult {
        success: false,
        path: repo_path.clone(),
        old_url: old_url.clone(),
        new_url: new_url.clone(),
        error: Some(message),
    }
}

/// Runs the validation chain over what was observed of the repository at
/// `repo_path`. Returns the failed result for the first violated step, or
/// `None` when every check passed and the write may be attempted.
pub fn check_replace(
    repo_path: &String,
    old_url: &String,
    new_url: &String,
    path_exists: bool,
    is_repo: bool,
    current_url: &Option<String>,
) -> (r: Option<ReplaceResult>)
    ensures
        match replace_rejection(path_exists, is_repo, current_url.deep_view(), old_url@) {
            Some(err) => r matches Some(res) && res.deep_view() == (ReplaceRec {
                success: false,
                path: repo_path@,
                old_url: old_url@,
                new_url: new_url@,
                error: Some(err),
            }),
            None => r is None,
        },
{
    if !path_exists {
        Some(fail_result(repo_path, old_url, new_url, "path does not exist".to_owned()))
    } else if !is_repo {
        Some(fail_result(repo_path, old_url, new_url, "not a valid repository".to_owned()))
    } else {
        match current_url {
            None => Some(
                fail_result(repo_path, old_url, new_url, "cannot read current remote URL".to_owned()),
            ),
            Some(c) => {
                if !str_eq(c.as_str(), old_url.as_str()) {
                    let mut message = "current remote URL does not match: ".to_owned();
                    message.append(c.as_str());
                    Some(fail_result(repo_path, old_url, new_url, message))
                } else {
                    None
                }
            },
        }
    }
}

/// Folds the attempted write's outcome into the final result: success with
/// a cleared error on `Ok`, the write's error text verbatim on `Err`.
pub fn finish_replace(
    repo_path: String,
    old_url: String,
    new_url: String,
    set_result: Result<(), String>,
) -> (r: ReplaceResult)
    ensures
        r.deep_view() == finished_rec(
            repo_path@,
            old_url@,
            new_url@,
            match set_result {
                Ok(_) => Ok(()),
                Err(e) => Err(e@),
            },
        ),
{
    match set_result {
        Ok(_) => ReplaceResult {
            success: true,
            path: repo_path,
            old_url: old_url,
            new_url: new_url,
            error: None,
        },
        Err(e) => ReplaceResult {
            success: false,
            path: repo_path,
            old_url: old_url,
            new_url: new_url,
            error: Some(e),
        },
    }
}

/// A replace is rejected exactly when the path is missing, not a
/// repository, its current URL unreadable, or that URL not the expected
/// one; and every rejection carries a non-empty error.
pub proof fn lemma_replace_rejections(
    path_exists: bool,
    is_repo: bool,
    current: Option<Seq<char>>,
    old_url: Seq<char>,
)
    ensures
        replace_rejection(path_exists, is_repo, current, old_url) is Some <==> (!path_exists
            || !is_repo || current is None || current != Some(old_url)),
        replace_rejection(path_exists, is_repo, current, old_url) matches Some(e) ==> e.len() > 0,
{
    reveal_strlit("path does not exist");
    reveal_strlit("not a valid repository");
    reveal_strlit("cannot read current remote URL");
    reveal_strlit("current remote URL does not match: ");
}

/// When the current URL still equals the expected one, no check fails, and
/// a successful write yields `success` with a cleared error.
pub proof fn lemma_replace_success(path: Seq<char>, old_url: Seq<char>, new_url: Seq<char>)
    ensures
        replace_rejection(true, true, Some(old_url), old_url) is None,
        finished_rec(path, old_url, new_url, Ok(())).success,
        finished_rec(path, old_url, new_url, Ok(())).error is None,
{
}

/// A successful replace is not idempotent: once the URL has been set to a
/// different `new_url`, running the same replace again is rejected with a
/// mismatch error that contains the already-updated URL.
pub proof fn lemma_replace_second_run_rejected(old_url: Seq<char>, new_url: Seq<char>)
    requires
        old_url != new_url,
    ensures
        replace_rejection(true, true, Some(new_url), old_url) == Some(mismatch_error(new_url)),
        contains_substring(mismatch_error(new_url), new_url),
{
    let prefix = "current remote URL does not match: "@;
    let whole = mismatch_error(new_url);
    assert(whole.subrange(prefix.len() as int, prefix.len() + new_url.len() as int) =~= new_url);
    assert(match_at(whole, new_url, prefix.len() as int));
}

} // verus!
