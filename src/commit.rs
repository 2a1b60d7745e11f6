//! Integration commits and the errors of resolving them.
use vstd::prelude::*;

verus! {

/// One integration commit: its hex identity, its commit time in seconds since the Unix
/// epoch (UTC), and its one-line summary.
#[derive(Debug)]
pub struct Commit {
    pub sha: String,
    pub date: i64,
    pub summary: String,
}

impl Commit {
    pub fn new(sha: String, date: i64, summary: String) -> (r: Commit)
        ensures
            r.sha == sha,
            r.date == date,
            r.summary == summary,
    {
        Commit { sha, date, summary }
    }

    /// The commit's identity as a hex string.
    pub fn sha(&self) -> (r: String)
        ensures
            r@ == self.sha@,
    {
        self.sha.clone()
    }
}

/// Why a commit sequence could not be resolved.
#[derive(Debug, Clone, Copy, PartialEq, Eq, Structural)]
pub enum ResolveError {
    /// A commit on the walk, or a boundary, was not made by the integration bot.
    NotIntegrationCommit,
    /// The history ended before the first boundary was reached.
    Exhausted,
    /// The listing ended (no next page) before the first boundary appeared.
    NoNextPage,
    /// The first boundary is not in the listing.
    FirstNotFound,
    /// The resolved sequence does not start at the requested first boundary.
    WrongStart,
    /// Two neighbouring commits are not in strictly ascending time order.
    OutOfOrder,
    /// A commit date could not be read.
    BadDate,
}

} // verus!
