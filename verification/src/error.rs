//! The library's error type.

use vstd::prelude::*;

use crate::text::push_str;

verus! {

/// What can go wrong in the library's own logic. Errors that come from the
/// database, the file system or a model provider are the application's.
#[derive(Debug)]
pub enum CoreError {
    /// A credential store failure, with the store's own message.
    Keyring(String),
    /// No row of `entity` has the given id.
    NotFound { entity: String, id: String },
    /// The input was rejected before any work was done.
    Validation(String),
    /// FFmpeg could not be run or reported a failure.
    Ffmpeg(String),
    /// The task state machine refused an operation.
    TaskEngine(String),
    /// The task was cancelled; not a failure.
    Cancelled,
}

/// The text of an error, as its `Display` would render it.
pub open spec fn error_message(e: CoreError) -> Seq<char> {
    match e {
        CoreError::Keyring(m) => "keyring error: "@ + m@,
        CoreError::NotFound { entity, id } => "not found: "@ + entity@ + " with id '"@ + id@ + seq!['\''],
        CoreError::Validation(m) => "validation error: "@ + m@,
        CoreError::Ffmpeg(m) => "ffmpeg error: "@ + m@,
        CoreError::TaskEngine(m) => "task engine error: "@ + m@,
        CoreError::Cancelled => "task cancelled"@,
    }
}

/// Whether `r` is a validation error with exactly the message `m`.
pub open spec fn is_validation(r: Result<(), CoreError>, m: Seq<char>) -> bool {
    r matches Err(CoreError::Validation(msg)) && msg@ == m
}

/// Whether `r` failed with a validation error whose message is exactly `m`.
pub open spec fn fails_validation<T>(r: Result<T, CoreError>, m: Seq<char>) -> bool {
    r matches Err(CoreError::Validation(msg)) && msg@ == m
}

impl CoreError {
    /// The human-readable text of the error.
    pub fn message(&self) -> (s: String)
        ensures
            s@ == error_message(*self),
    {
        let mut s = String::new();
        match self {
            CoreError::Keyring(m) => {
                push_str(&mut s, "keyring error: ");
                push_str(&mut s, m.as_str());
            },
            CoreError::NotFound { entity, id } => {
                push_str(&mut s, "not found: ");
                push_str(&mut s, entity.as_str());
                push_str(&mut s, " with id '");
                push_str(&mut s, id.as_str());
                crate::text::push_char(&mut s, '\'');
            },
            CoreError::Validation(m) => {
                push_str(&mut s, "validation error: ");
                push_str(&mut s, m.as_str());
            },
            CoreError::Ffmpeg(m) => {
                push_str(&mut s, "ffmpeg error: ");
                push_str(&mut s, m.as_str());
            },
            CoreError::TaskEngine(m) => {
                push_str(&mut s, "task engine error: ");
                push_str(&mut s, m.as_str());
            },
            CoreError::Cancelled => {
                push_str(&mut s, "task cancelled");
            },
        }
        s
    }
}

/// A validation error carrying `msg`.
pub fn validation(msg: &str) -> (e: CoreError)
    ensures
        e matches CoreError::Validation(m) && m@ == msg@,
{
    CoreError::Validation(msg.to_owned())
}

} // verus!
