//! The daemon's error type: what each failure displays as, which HTTP status
//! it is answered with, and the message placed in the answer's body.

use vstd::prelude::*;

verus! {

/// What nix's `Errno` displays for the errno with code `code`
/// (`"<NAME>: <description>"`).
pub uninterp spec fn nix_errno_display(code: i32) -> Seq<char>;

/// Renders the errno `code` through `nix::errno::Errno`'s `Display`.
/// Claimed: the text depends on `code` alone (nix maps the code to a fixed
/// name and description).
#[verifier::external_body]
fn errno_text(code: i32) -> (s: String)
    ensures
        s@ == nix_errno_display(code),
{
    nix::errno::Errno::from_raw(code).to_string()
}

/// A failure of a daemon operation.
#[derive(Debug)]
pub enum DaemonError {
    InvalidInput(String),
    Conflict(String),
    NotFound(String),
    Unauthorized(String),
    Cgroup(String),
    Fork(String),
    /// An I/O failure, held as the text that the I/O error displays.
    Io(String),
    /// A failed system call, held as its errno code.
    Nix(i32),
}

impl DaemonError {
    /// An `InvalidInput` error with message `m`.
    pub open spec fn is_invalid_input(&self, m: Seq<char>) -> bool {
        self matches DaemonError::InvalidInput(x) && x@ == m
    }

    /// A `NotFound` error with message `m`.
    pub open spec fn is_not_found(&self, m: Seq<char>) -> bool {
        self matches DaemonError::NotFound(x) && x@ == m
    }

    /// A `Conflict` error with message `m`.
    pub open spec fn is_conflict(&self, m: Seq<char>) -> bool {
        self matches DaemonError::Conflict(x) && x@ == m
    }

    /// An `Unauthorized` error with message `m`.
    pub open spec fn is_unauthorized(&self, m: Seq<char>) -> bool {
        self matches DaemonError::Unauthorized(x) && x@ == m
    }

    /// A `Cgroup` error with message `m`.
    pub open spec fn is_cgroup(&self, m: Seq<char>) -> bool {
        self matches DaemonError::Cgroup(x) && x@ == m
    }

    /// A `Fork` error with message `m`.
    pub open spec fn is_fork(&self, m: Seq<char>) -> bool {
        self matches DaemonError::Fork(x) && x@ == m
    }

    /// The text that the error displays.
    pub open spec fn display(&self) -> Seq<char> {
        match self {
            DaemonError::InvalidInput(m) => "invalid input: "@ + m@,
            DaemonError::Conflict(m) => "conflict: "@ + m@,
            DaemonError::NotFound(m) => "not found: "@ + m@,
            DaemonError::Unauthorized(m) => "unauthorized: "@ + m@,
            DaemonError::Cgroup(m) => "cgroup error: "@ + m@,
            DaemonError::Fork(m) => "fork error: "@ + m@,
            DaemonError::Io(m) => "I/O error: "@ + m@,
            DaemonError::Nix(code) => "nix error: "@ + nix_errno_display(*code),
        }
    }

    /// The HTTP status that answers a request failing with this error.
    pub open spec fn status(&self) -> u16 {
        match self {
            DaemonError::InvalidInput(_) => 400,
            DaemonError::Unauthorized(_) => 401,
            DaemonError::NotFound(_) => 404,
            DaemonError::Conflict(_) => 409,
            _ => 500,
        }
    }

    /// The message placed under `"error"` in the body of that answer.
    pub open spec fn body_text(&self) -> Seq<char> {
        match self {
            DaemonError::InvalidInput(m) => m@,
            DaemonError::Conflict(m) => m@,
            DaemonError::NotFound(m) => m@,
            DaemonError::Unauthorized(m) => m@,
            DaemonError::Cgroup(m) => m@,
            DaemonError::Fork(m) => m@,
            DaemonError::Io(m) => m@,
            DaemonError::Nix(code) => nix_errno_display(*code),
        }
    }

    /// Renders the error for people.
    pub fn to_string(&self) -> (s: String)
        ensures
            s@ == self.display(),
    {
        match self {
            DaemonError::InvalidInput(m) => String::from_str("invalid input: ").concat(m.as_str()),
            DaemonError::Conflict(m) => String::from_str("conflict: ").concat(m.as_str()),
            DaemonError::NotFound(m) => String::from_str("not found: ").concat(m.as_str()),
            DaemonError::Unauthorized(m) => String::from_str("unauthorized: ").concat(m.as_str()),
            DaemonError::Cgroup(m) => String::from_str("cgroup error: ").concat(m.as_str()),
            DaemonError::Fork(m) => String::from_str("fork error: ").concat(m.as_str()),
            DaemonError::Io(m) => String::from_str("I/O error: ").concat(m.as_str()),
            DaemonError::Nix(code) => {
                let t = errno_text(*code);
                String::from_str("nix error: ").concat(t.as_str())
            },
        }
    }

    /// The HTTP status code that answers a request failing with this error.
    pub fn status_code(&self) -> (c: u16)
        ensures
            c == self.status(),
    {
        match self {
            DaemonError::InvalidInput(_) => 400,
            DaemonError::Unauthorized(_) => 401,
            DaemonError::NotFound(_) => 404,
            DaemonError::Conflict(_) => 409,
            _ => 500,
        }
    }

    /// The message placed in the body of the answer.
    pub fn response_message(&self) -> (s: String)
        ensures
            s@ == self.body_text(),
    {
        match self {
            DaemonError::InvalidInput(m) => m.clone(),
            DaemonError::Conflict(m) => m.clone(),
            DaemonError::NotFound(m) => m.clone(),
            DaemonError::Unauthorized(m) => m.clone(),
            DaemonError::Cgroup(m) => m.clone(),
            DaemonError::Fork(m) => m.clone(),
            DaemonError::Io(m) => m.clone(),
            DaemonError::Nix(code) => errno_text(*code),
        }
    }
}


/// A refused request is answered with the status of its refusal and the
/// refusal's message: 400 for invalid input, 401 for a missing or wrong token,
/// 404 for an unknown tenant, 409 for a conflict.
pub proof fn law_refusals_are_answered(e: DaemonError, m: Seq<char>)
    ensures
        e.is_invalid_input(m) ==> e.status() == 400 && e.body_text() == m,
        e.is_unauthorized(m) ==> e.status() == 401 && e.body_text() == m,
        e.is_not_found(m) ==> e.status() == 404 && e.body_text() == m,
        e.is_conflict(m) ==> e.status() == 409 && e.body_text() == m,
        e.is_cgroup(m) ==> e.status() == 500 && e.body_text() == m,
{
}

} // verus!
