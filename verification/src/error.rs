//! The error type of the library.

use vstd::prelude::*;

verus! {

/// `std::io::Error`, carried through the library unopened.
#[verifier::external_type_specification]
#[verifier::external_body]
pub struct ExIoError(std::io::Error);

/// What can go wrong while asking git about a repository.
#[derive(Debug)]
pub enum AppError {
    /// The directory is not inside a git repository.
    NotARepo,
    /// A git command could not run or reported a failure.
    GitCommand(String),
    /// Git printed something that could not be understood.
    ParseError(String),
    /// An I/O failure.
    Io(std::io::Error),
}

/// The text of the error message for every variant but `Io`, whose text comes from
/// the operating system.
pub open spec fn error_text(e: AppError) -> Seq<char> {
    match e {
        AppError::NotARepo => "not a git repository (or any parent up to mount point)"@,
        AppError::GitCommand(s) => "git command failed: "@ + s@,
        AppError::ParseError(s) => "failed to parse git output: "@ + s@,
        AppError::Io(_) => "io error: "@,
    }
}

/// The display text of an I/O error (std's `ToString` through `Display` for
/// `std::io::Error`). Nothing is claimed of the text: it comes from the operating system.
#[verifier::external_body]
fn io_error_text(e: &std::io::Error) -> String {
    e.to_string()
}

impl AppError {
    /// The error message a user sees.
    pub fn message(&self) -> (m: String)
        ensures
            !(self is Io) ==> m@ == error_text(*self),
            self is Io ==> error_text(*self).len() <= m@.len() && m@.take(
                error_text(*self).len() as int,
            ) == error_text(*self),
    {
        match self {
            AppError::NotARepo => String::from_str(
                "not a git repository (or any parent up to mount point)",
            ),
            AppError::GitCommand(s) => {
                let mut m = String::from_str("git command failed: ");
                m.append(s.as_str());
                m
            },
            AppError::ParseError(s) => {
                let mut m = String::from_str("failed to parse git output: ");
                m.append(s.as_str());
                m
            },
            AppError::Io(e) => {
                let mut m = String::from_str("io error: ");
                let t = io_error_text(e);
                m.append(t.as_str());
                proof {
                    assert(m@.take(error_text(*self).len() as int) =~= error_text(*self));
                }
                m
            },
        }
    }
}

impl From<std::io::Error> for AppError {
    fn from(e: std::io::Error) -> (r: AppError) {
        AppError::Io(e)
    }
}

impl vstd::std_specs::convert::FromSpecImpl<std::io::Error> for AppError {
    open spec fn obeys_from_spec() -> bool {
        true
    }

    open spec fn from_spec(e: std::io::Error) -> AppError {
        AppError::Io(e)
    }
}

} // verus!
