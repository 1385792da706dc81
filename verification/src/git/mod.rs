//! Polling of git remotes: how a remote is polled, and what a poll's outcome means.
use vstd::prelude::*;

pub mod github_api;
pub mod grokmirror;
pub mod ls_remote;
pub mod rate_bucket;
pub mod remote_url;
pub mod strategy;

use crate::object_id::ObjectId;

verus! {

/// What one poll of a source came to.
#[derive(Clone, Copy, PartialEq, Eq, Debug)]
pub enum PollOutcome {
    /// The ref points at `sha`.
    Refreshed { sha: ObjectId },
    /// The remote has no such ref.
    UnbornRef,
    /// Nothing has changed since the last poll.
    Unchanged,
}

} // verus!
