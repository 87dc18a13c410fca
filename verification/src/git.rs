//! Interpreting what the external configuration tool reports.
//!
//! The tool itself runs outside the library; its exit status and captured
//! output come in as plain values and are classified here.

use vstd::prelude::*;

verus! {

/// The backend tool failed to run or exited with an unexpected status.
#[derive(Clone, Copy, Debug, PartialEq, Eq, Structural)]
pub struct BackendInvocationError;

/// Mathematical image of a backend read.
pub enum GitOutputView {
    Value(Seq<char>),
    NoValue,
}

/// What a configuration read produced: a value, or the normal "key unset"
/// negative result.
#[derive(Debug, PartialEq, Eq, Clone)]
pub enum GitOutput {
    Value(String),
    NoValue,
}

impl View for GitOutput {
    type V = GitOutputView;

    open spec fn view(&self) -> GitOutputView {
        match self {
            GitOutput::Value(s) => GitOutputView::Value(s@),
            GitOutput::NoValue => GitOutputView::NoValue,
        }
    }
}

impl GitOutput {
    /// The read value, with the normal negative result as the empty
    /// string.
    pub fn value_or_empty(self) -> (r: String)
        ensures
            (match self@ {
                GitOutputView::Value(s) => r@ == s,
                GitOutputView::NoValue => r@ == Seq::<char>::empty(),
            }),
    {
        match self {
            GitOutput::Value(v) => v,
            GitOutput::NoValue => String::new(),
        }
    }
}

/// Classify a finished backend invocation: exit status 0 carries its
/// output, 1 is the normal negative result, and any other outcome —
/// another status, or death without one — is an invocation failure.
pub fn interpret_git_exit(code: Option<i32>, stdout: String) -> (r: Result<
    GitOutput,
    BackendInvocationError,
>)
    ensures
        (match code {
            Some(c) => {
                if c == 0 {
                    r matches Ok(o) && o@ == GitOutputView::Value(stdout@)
                } else if c == 1 {
                    r matches Ok(o) && o@ == GitOutputView::NoValue
                } else {
                    r is Err
                }
            },
            None => r is Err,
        }),
{
    match code {
        Some(c) => {
            if c == 0 {
                Ok(GitOutput::Value(stdout))
            } else if c == 1 {
                Ok(GitOutput::NoValue)
            } else {
                Err(BackendInvocationError)
            }
        },
        None => Err(BackendInvocationError),
    }
}

} // verus!
