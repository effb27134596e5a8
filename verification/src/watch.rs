//! The state of a background watch that re-checks for conflicts at intervals.
//! The loop itself (timer, stop signal, notifications) belongs to the caller, which
//! reports each check here and shows the notification text it gets back.

use vstd::prelude::*;

use crate::conflict::{ConflictReport, ReportView};
use crate::error::AppError;
use crate::presentation::{notification_body, notification_text};

verus! {

/// What a watch knows: whether it runs, what it watches, and the last report.
pub struct WatchState {
    /// Whether watching is active.
    pub is_watching: bool,
    /// Target branch being watched.
    pub target: Option<String>,
    /// Optional repo path (None = CWD).
    pub repo_path: Option<String>,
    /// Last conflict report from the watch loop.
    pub last_report: Option<ConflictReport>,
}

/// The status of a watch as reported to users.
#[derive(Debug, Clone)]
pub struct WatchStatus {
    pub is_watching: bool,
    pub target: Option<String>,
    pub last_report: Option<ConflictReport>,
    pub repo_path: Option<String>,
}

/// The view of an optional text.
pub open spec fn opt_text(o: Option<String>) -> Option<Seq<char>> {
    match o {
        Some(s) => Some(s@),
        None => None,
    }
}

/// The view of an optional report.
pub open spec fn opt_report(o: Option<ConflictReport>) -> Option<ReportView> {
    match o {
        Some(r) => Some(r@),
        None => None,
    }
}

fn copy_text(o: &Option<String>) -> (r: Option<String>)
    ensures
        opt_text(r) == opt_text(*o),
{
    match o {
        Some(s) => Some(s.clone()),
        None => None,
    }
}

fn copy_report(o: &Option<ConflictReport>) -> (r: Option<ConflictReport>)
    ensures
        opt_report(r) == opt_report(*o),
{
    match o {
        Some(rep) => Some(rep.copied()),
        None => None,
    }
}

impl Default for WatchState {
    /// An idle watch: not watching, nothing watched, no report yet.
    fn default() -> (s: WatchState)
        ensures
            !s.is_watching,
            s.target is None,
            s.repo_path is None,
            s.last_report is None,
    {
        WatchState { is_watching: false, target: None, repo_path: None, last_report: None }
    }
}

impl WatchState {
    /// Starts watching `target` in the repository at `repo_path`; the last report stays.
    pub fn begin(&mut self, target: String, repo_path: Option<String>)
        ensures
            final(self).is_watching,
            opt_text(final(self).target) == Some(target@),
            opt_text(final(self).repo_path) == opt_text(repo_path),
            opt_report(final(self).last_report) == opt_report(old(self).last_report),
    {
        self.is_watching = true;
        self.target = Some(target);
        self.repo_path = repo_path;
    }

    /// Records the outcome of one check and returns the notification to show, if any.
    /// A report replaces the last one and is announced when it has conflicts; a failed
    /// check changes nothing and announces nothing.
    pub fn observe(&mut self, outcome: Result<ConflictReport, AppError>) -> (notice: Option<
        String,
    >)
        ensures
            final(self).is_watching == old(self).is_watching,
            opt_text(final(self).target) == opt_text(old(self).target),
            opt_text(final(self).repo_path) == opt_text(old(self).repo_path),
            outcome matches Ok(r) ==> opt_report(final(self).last_report) == Some(r@) && opt_text(
                notice,
            ) == notification_text(r@),
            outcome is Err ==> opt_report(final(self).last_report) == opt_report(
                old(self).last_report,
            ) && notice is None,
    {
        match outcome {
            Ok(r) => {
                let notice = notification_body(&r);
                self.last_report = Some(r);
                notice
            },
            Err(_) => None,
        }
    }

    /// Marks the watch as stopped; what it watched and the last report stay.
    pub fn stop(&mut self)
        ensures
            !final(self).is_watching,
            opt_text(final(self).target) == opt_text(old(self).target),
            opt_text(final(self).repo_path) == opt_text(old(self).repo_path),
            opt_report(final(self).last_report) == opt_report(old(self).last_report),
    {
        self.is_watching = false;
    }

    /// Clears the watch when its loop ends; only the last report stays.
    pub fn finish(&mut self)
        ensures
            !final(self).is_watching,
            final(self).target is None,
            final(self).repo_path is None,
            opt_report(final(self).last_report) == opt_report(old(self).last_report),
    {
        self.is_watching = false;
        self.target = None;
        self.repo_path = None;
    }

    /// The status of this watch.
    pub fn status(&self) -> (s: WatchStatus)
        ensures
            s.is_watching == self.is_watching,
            opt_text(s.target) == opt_text(self.target),
            opt_text(s.repo_path) == opt_text(self.repo_path),
            opt_report(s.last_report) == opt_report(self.last_report),
    {
        WatchStatus {
            is_watching: self.is_watching,
            target: copy_text(&self.target),
            last_report: copy_report(&self.last_report),
            repo_path: copy_text(&self.repo_path),
        }
    }
}

} // verus!
