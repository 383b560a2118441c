//! The decisions of the sync loop: when to resync, when to back off, and
//! what a sync pass writes.
//!
//! The loop itself (inspecting containers, reading and writing the file,
//! reading the event feed, sleeping) is run by the caller, which performs
//! each action and hands back what came of it as an event.
use vstd::prelude::*;
use vstd::string::*;
use crate::container::{
    ContainerDetails, InventoryError, all_found, block_of, looked_up, render_snapshot,
};
use crate::merge::{merge_hosts, merged};

verus! {

/// How long the loop waits after a failure before it starts over.
pub const RETRY_DELAY_SECS: u64 = 1;

#[derive(Clone, Copy, Debug, PartialEq, Eq, Structural)]
pub enum SyncState {
    Starting,
    Syncing,
    Watching,
    Failed,
}

/// What happened since the last action.
#[derive(Clone, Debug, PartialEq, Eq)]
pub enum SyncEvent {
    /// The loop was (re)started.
    Boot,
    /// A sync pass rendered and wrote the file.
    SyncSucceeded,
    /// A sync pass failed: the inventory or the file could not be used.
    SyncFailed,
    /// The event feed delivered a lifecycle event with this status.
    Notification { status: Option<String> },
    /// The event feed could not be opened, or ended, or failed.
    FeedEnded,
    /// The wait after a failure is over.
    BackoffElapsed,
}

/// What the caller is to do next.
#[derive(Clone, Copy, Debug, PartialEq, Eq, Structural)]
pub enum SyncAction {
    /// Render the snapshot and merge it into the file.
    RunSync,
    /// Wait for the next event of the feed, subscribing first if needed.
    AwaitEvent,
    /// Report the failure and wait this many seconds.
    Backoff { secs: u64 },
    /// Start the loop over.
    Restart,
    /// The event does not apply in this state: do nothing.
    Ignore,
}

pub open spec fn start_status() -> Seq<char> {
    seq!['s', 't', 'a', 'r', 't']
}

pub open spec fn stop_status() -> Seq<char> {
    seq!['s', 't', 'o', 'p']
}

/// A lifecycle event with this status calls for a resync.
pub open spec fn triggers_resync(status: Option<String>) -> bool {
    match status {
        Some(s) => s@ == start_status() || s@ == stop_status(),
        None => false,
    }
}

/// The next state of the loop and the action that goes with it.
pub open spec fn transition(state: SyncState, event: SyncEvent) -> (SyncState, SyncAction) {
    match (state, event) {
        (SyncState::Starting, SyncEvent::Boot) => (SyncState::Syncing, SyncAction::RunSync),
        (SyncState::Syncing, SyncEvent::SyncSucceeded) => (SyncState::Watching, SyncAction::AwaitEvent),
        (SyncState::Syncing, SyncEvent::SyncFailed) => (
            SyncState::Failed,
            SyncAction::Backoff { secs: RETRY_DELAY_SECS },
        ),
        (SyncState::Watching, SyncEvent::Notification { status }) => if triggers_resync(status) {
            (SyncState::Syncing, SyncAction::RunSync)
        } else {
            (SyncState::Watching, SyncAction::AwaitEvent)
        },
        (SyncState::Watching, SyncEvent::FeedEnded) => (
            SyncState::Failed,
            SyncAction::Backoff { secs: RETRY_DELAY_SECS },
        ),
        (SyncState::Failed, SyncEvent::BackoffElapsed) => (SyncState::Starting, SyncAction::Restart),
        _ => (state, SyncAction::Ignore),
    }
}

/// Whether a lifecycle event with this status calls for a resync: only
/// `start` and `stop` do.
pub fn is_resync_trigger(status: &Option<String>) -> (r: bool)
    ensures
        r == triggers_resync(*status),
{
    match status {
        Some(s) => {
            proof {
                reveal_strlit("start");
                reveal_strlit("stop");
                assert("start"@ =~= start_status());
                assert("stop"@ =~= stop_status());
            }
            let start = String::from_str("start");
            let stop = String::from_str("stop");
            *s == start || *s == stop
        },
        None => false,
    }
}

/// One step of the sync loop.
pub fn next_step(state: SyncState, event: &SyncEvent) -> (r: (SyncState, SyncAction))
    ensures
        r == transition(state, *event),
{
    match (state, event) {
        (SyncState::Starting, SyncEvent::Boot) => (SyncState::Syncing, SyncAction::RunSync),
        (SyncState::Syncing, SyncEvent::SyncSucceeded) => (SyncState::Watching, SyncAction::AwaitEvent),
        (SyncState::Syncing, SyncEvent::SyncFailed) => (
            SyncState::Failed,
            SyncAction::Backoff { secs: RETRY_DELAY_SECS },
        ),
        (SyncState::Watching, SyncEvent::Notification { status }) => if is_resync_trigger(status) {
            (SyncState::Syncing, SyncAction::RunSync)
        } else {
            (SyncState::Watching, SyncAction::AwaitEvent)
        },
        (SyncState::Watching, SyncEvent::FeedEnded) => (
            SyncState::Failed,
            SyncAction::Backoff { secs: RETRY_DELAY_SECS },
        ),
        (SyncState::Failed, SyncEvent::BackoffElapsed) => (SyncState::Starting, SyncAction::Restart),
        _ => (state, SyncAction::Ignore),
    }
}

/// The content that one sync pass writes over `existing`, given the result
/// of inspecting each listed container. Any failed lookup fails the pass
/// before anything is to be written.
pub fn plan_update(existing: &str, lookups: Vec<Result<ContainerDetails, InventoryError>>) -> (r: Result<String, InventoryError>)
    ensures
        r is Ok <==> all_found(lookups@),
        r is Ok ==> r->Ok_0@ == merged(existing@, block_of(looked_up(lookups@))),
        r is Err ==> exists|i: int|
            0 <= i < lookups@.len() && lookups@[i] == Err::<ContainerDetails, InventoryError>(r->Err_0)
                && all_found(#[trigger] lookups@.subrange(0, i)),
{
    match render_snapshot(lookups) {
        Ok(block) => Ok(merge_hosts(existing, block.as_str())),
        Err(e) => Err(e),
    }
}

/// The loop has no terminal failure: entering the failed state comes with a
/// backoff, and the end of the backoff leads through a restart to a new sync
/// pass.
pub proof fn lemma_failure_is_retried(state: SyncState, event: SyncEvent)
    requires
        state != SyncState::Failed,
        transition(state, event).0 == SyncState::Failed,
    ensures
        transition(state, event).1 == (SyncAction::Backoff { secs: RETRY_DELAY_SECS }),
        transition(SyncState::Failed, SyncEvent::BackoffElapsed) == (SyncState::Starting, SyncAction::Restart),
        transition(SyncState::Starting, SyncEvent::Boot) == (SyncState::Syncing, SyncAction::RunSync),
{
}

} // verus!
