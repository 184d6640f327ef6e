//! The failure type shared by every operation of the crate.

use vstd::prelude::*;
use vstd::string::*;

use crate::text::{decimal, decimal_string};

verus! {

/// Why an operation failed.
#[derive(Debug, PartialEq, Eq)]
pub enum SyncError {
    /// Reading or writing the backing store failed, or a tool could not be started.
    Io(String),
    /// A byte payload was not valid UTF-8.
    StrUtf8(String),
    /// A rule of the application was violated.
    App(String),
    /// The persisted history could not be encoded or decoded.
    Json(String),
    /// A prompt could not be answered.
    Inquire(String),
    /// A log payload was not well-formed XML.
    Roxmltree(String),
    /// The destination reported an unmerged path after moving to `revision`.
    /// `status` is the listing that showed it.
    Conflict { step: usize, revision: String, status: String },
    /// Entry number `step` (counted from one) could not be applied.
    Step { step: usize, revision: String, cause: Box<SyncError> },
    /// An event was handed to a state machine that was not waiting for it.
    UnexpectedEvent,
}

/// The text shown to the operator for an error.
pub open spec fn error_text(e: SyncError) -> Seq<char>
    decreases e,
{
    match e {
        SyncError::Io(m) => "IO error: "@ + m@,
        SyncError::StrUtf8(m) => "Invalid Utf8 in string slice: "@ + m@,
        SyncError::App(m) => "Application error: "@ + m@,
        SyncError::Json(m) => "Json error: "@ + m@,
        SyncError::Inquire(m) => "Inquire error: "@ + m@,
        SyncError::Roxmltree(m) => "Roxmltree error: "@ + m@,
        SyncError::Conflict { step, revision, status } => "Conflict at step "@ + decimal(
            step as nat,
        ) + " (revision "@ + revision@ + "): "@ + status@,
        SyncError::Step { step, revision, cause } => "Step "@ + decimal(step as nat)
            + " (revision "@ + revision@ + ") failed: "@ + error_text(*cause),
        SyncError::UnexpectedEvent => "Unexpected event"@,
    }
}

/// `r` is an application failure whose message is `text`.
pub open spec fn app_failure<T>(r: Result<T, SyncError>, text: Seq<char>) -> bool {
    r matches Err(SyncError::App(m)) && m@ == text
}

fn labelled(label: &str, detail: &str) -> (r: String)
    ensures
        r@ == label@ + detail@,
{
    let mut s = String::from_str(label);
    s.append(detail);
    s
}

fn step_header(word: &str, step: usize, revision: &str, tail: &str) -> (r: String)
    ensures
        r@ == word@ + decimal(step as nat) + " (revision "@ + revision@ + tail@,
{
    let mut s = String::from_str(word);
    let number = decimal_string(step);
    s.append(number.as_str());
    s.append(" (revision ");
    s.append(revision);
    s.append(tail);
    s
}

impl SyncError {
    /// Renders the error for the operator.
    pub fn message(&self) -> (r: String)
        ensures
            r@ == error_text(*self),
        decreases self,
    {
        match self {
            SyncError::Io(m) => labelled("IO error: ", m.as_str()),
            SyncError::StrUtf8(m) => labelled("Invalid Utf8 in string slice: ", m.as_str()),
            SyncError::App(m) => labelled("Application error: ", m.as_str()),
            SyncError::Json(m) => labelled("Json error: ", m.as_str()),
            SyncError::Inquire(m) => labelled("Inquire error: ", m.as_str()),
            SyncError::Roxmltree(m) => labelled("Roxmltree error: ", m.as_str()),
            SyncError::Conflict { step, revision, status } => {
                let mut s = step_header("Conflict at step ", *step, revision.as_str(), "): ");
                s.append(status.as_str());
                s
            },
            SyncError::Step { step, revision, cause } => {
                let mut s = step_header("Step ", *step, revision.as_str(), ") failed: ");
                let inner = cause.message();
                s.append(inner.as_str());
                s
            },
            SyncError::UnexpectedEvent => String::from_str("Unexpected event"),
        }
    }

    /// Wraps `cause` with the number and revision of the entry that failed.
    pub fn at_step(step: usize, revision: &String, cause: SyncError) -> (r: SyncError)
        ensures
            r == (SyncError::Step { step, revision: *revision, cause: Box::new(cause) }),
    {
        SyncError::Step { step, revision: revision.clone(), cause: Box::new(cause) }
    }

    /// Whether this is the distinct conflict failure.
    pub fn is_conflict(&self) -> (r: bool)
        ensures
            r == (*self is Conflict),
    {
        match self {
            SyncError::Conflict { .. } => true,
            _ => false,
        }
    }
}

} // verus!
