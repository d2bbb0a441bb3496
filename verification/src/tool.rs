//! Interpretation of captured version-control tool invocations.
//!
//! The tool itself runs outside this library; callers capture one
//! invocation's outcome as a `ToolRun` and these functions turn it into the
//! value the rest of the logic works with.

use vstd::prelude::*;
use crate::strings::{trim, trimmed};

verus! {

/// The captured output of a tool process that ran to completion.
#[derive(Debug, Clone)]
pub struct ToolOutput {
    /// Whether the process reported success (exit code zero).
    pub success: bool,
    /// Captured standard output, when it was valid text.
    pub stdout: Option<String>,
    /// Captured standard error, decoded leniently.
    pub stderr: String,
}

/// The observed outcome of one attempt to run the version-control tool.
#[derive(Debug, Clone)]
pub enum ToolRun {
    /// The process could not be started; carries the launcher's error text.
    NotRun(String),
    /// The process ran to completion with the captured output.
    Ran(ToolOutput),
}

/// The origin URL that reading a remote yields for a given tool outcome:
/// the trimmed standard output on success, nothing otherwise.
pub open spec fn origin_url_of(run: ToolRun) -> Option<Seq<char>> {
    match run {
        ToolRun::NotRun(_) => None,
        ToolRun::Ran(o) => if o.success {
            match o.stdout {
                Some(s) => Some(trimmed(s@)),
                None => None,
            }
        } else {
            None
        },
    }
}

/// What writing a remote URL yields for a given tool outcome: success on
/// exit code zero, otherwise the captured error text.
pub open spec fn set_outcome_of(run: ToolRun) -> Result<(), Seq<char>> {
    match run {
        ToolRun::NotRun(e) => Err(e@),
        ToolRun::Ran(o) => if o.success {
            Ok(())
        } else {
            Err(o.stderr@)
        },
    }
}

/// Reads the origin remote URL out of one captured `remote get-url origin`
/// invocation: the trimmed output text on success, nothing when the tool
/// could not be run, failed, or produced no valid text.
pub fn get_git_origin_url(run: &ToolRun) -> (r: Option<String>)
    ensures
        match r {
            Some(u) => origin_url_of(*run) == Some(u@),
            None => origin_url_of(*run) is None,
        },
{
    match run {
        ToolRun::NotRun(_) => None,
        ToolRun::Ran(o) => {
            if o.success {
                match &o.stdout {
                    Some(s) => Some(trim(s.as_str())),
                    None => None,
                }
            } else {
                None
            }
        },
    }
}

/// Turns one captured `remote set-url origin` invocation into its result:
/// success on exit code zero, otherwise the captured error text verbatim.
pub fn set_git_origin_url(run: &ToolRun) -> (r: Result<(), String>)
    ensures
        r is Ok <==> set_outcome_of(*run) is Ok,
        r matches Err(e) ==> set_outcome_of(*run) == Result::<(), Seq<char>>::Err(e@),
{
    match run {
        ToolRun::NotRun(e) => Err(e.clone()),
        ToolRun::Ran(o) => {
            if o.success {
                Ok(())
            } else {
                Err(o.stderr.clone())
            }
        },
    }
}

} // verus!
