//! The harvest scheduler: what the harvest thread does next, as a function
//! of what just happened to it.

use vstd::prelude::*;

verus! {

/// What the harvest thread has just done.
#[derive(Clone, Copy, Debug, PartialEq, Eq, Structural)]
pub enum HarvestEvent {
    /// The thread has started.
    Started,
    /// The control channel was polled; a reset was waiting on it or not.
    Polled { reset_requested: bool },
    /// The harvester has cleared its baselines.
    BaselineCleared,
    /// A snapshot has been collected.
    Collected,
    /// The snapshot was handed to the event channel; the channel took it or
    /// was closed.
    Sent { delivered: bool },
    /// The refresh interval has passed.
    Slept,
}

/// What the harvest thread does next.
#[derive(Clone, Copy, Debug, PartialEq, Eq, Structural)]
pub enum HarvestAction {
    /// Look, without waiting, for a reset on the control channel.
    PollReset,
    /// Have the harvester clear the baselines of its cumulative counters.
    ClearBaseline,
    /// Collect a snapshot.
    Collect,
    /// Send the snapshot as an update event.
    Send,
    /// Sleep for the refresh interval, in milliseconds.
    Sleep(u64),
    /// End the thread: the event loop is gone.
    Exit,
}

/// The next step of the harvest loop. Each round polls for a reset, clears
/// the baselines where one was asked for, collects, sends and sleeps. A
/// send that fails ends the thread: that is the way it shuts down.
pub open spec fn next_harvest_action(event: HarvestEvent, update_rate_in_milliseconds: u64)
    -> HarvestAction {
    match event {
        HarvestEvent::Started => HarvestAction::PollReset,
        HarvestEvent::Polled { reset_requested } => if reset_requested {
            HarvestAction::ClearBaseline
        } else {
            HarvestAction::Collect
        },
        HarvestEvent::BaselineCleared => HarvestAction::Collect,
        HarvestEvent::Collected => HarvestAction::Send,
        HarvestEvent::Sent { delivered } => if delivered {
            HarvestAction::Sleep(update_rate_in_milliseconds)
        } else {
            HarvestAction::Exit
        },
        HarvestEvent::Slept => HarvestAction::PollReset,
    }
}

/// Decides the next step of the harvest loop.
pub fn harvest_step(event: HarvestEvent, update_rate_in_milliseconds: u64) -> (action:
    HarvestAction)
    ensures
        action == next_harvest_action(event, update_rate_in_milliseconds),
{
    match event {
        HarvestEvent::Started => HarvestAction::PollReset,
        HarvestEvent::Polled { reset_requested } => if reset_requested {
            HarvestAction::ClearBaseline
        } else {
            HarvestAction::Collect
        },
        HarvestEvent::BaselineCleared => HarvestAction::Collect,
        HarvestEvent::Collected => HarvestAction::Send,
        HarvestEvent::Sent { delivered } => if delivered {
            HarvestAction::Sleep(update_rate_in_milliseconds)
        } else {
            HarvestAction::Exit
        },
        HarvestEvent::Slept => HarvestAction::PollReset,
    }
}

} // verus!
