//! Conflict prediction for git merges: parsing of `git merge-tree` output,
//! interpretation of the other git commands the tool runs, and the
//! resolution guide shown to the user.

pub mod conflict;
pub mod error;
pub mod git;
pub mod guide;
pub mod presentation;
pub mod session;
pub mod text;
pub mod watch;

pub use conflict::{ConflictDetail, ConflictReport, ConflictType};
pub use error::AppError;
