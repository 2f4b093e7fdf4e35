//! The pipeline driver: sequences discovery, drain and completion marking
//! for one source.
//!
//! The runner performs the outside work — fetching a page, draining the
//! queue — and reports each result as an event; the driver decides, as a
//! pure transition, what to do next.  Re-invoking a finished pipeline is
//! always safe: every stage's work is idempotent in the store.

use vstd::prelude::*;

use crate::error::FetchError;

verus! {

/// Where a pipeline run stands.
#[derive(Debug, Clone, Copy, PartialEq, Eq, Structural)]
pub enum PipelineStage {
    /// Walking the source's directory, page by page.
    Discovering,
    /// Draining the work-item queue.
    Draining,
    /// Setting the parents' sync flags from the drain's outcome.
    MarkingComplete,
    /// Nothing left to do in this invocation.
    Finished,
}

/// What the runner reports back to the driver.
#[derive(Debug, Clone, Copy, PartialEq, Eq, Structural)]
pub enum DriverEvent {
    /// A directory page was applied; `more` says a next-page link exists.
    PageApplied { more: bool },
    /// A directory page could not be fetched.
    PageFetchFailed(FetchError),
    /// The drain walked its whole snapshot; `failures` failed items stay
    /// pending.
    DrainFinished { failures: usize },
    /// The sync flags are written.
    CompletionMarked,
}

/// What the runner should do next.
#[derive(Debug, Clone, Copy, PartialEq, Eq, Structural)]
pub enum DriverAction {
    /// Fetch and apply the next directory page.
    FetchDirectoryPage,
    /// Drain the work-item queue once.
    DrainQueue,
    /// Set the sync flags: synced exactly when the drain saw no failure.
    MarkCompletion { synced: bool },
    /// This invocation is over; rerunning the command resumes safely.
    Stop,
}

/// The driver's transition: discovery follows next-page links until none
/// remain, then the queue is drained once, then completion is marked.  A
/// discovery fetch failure ends the invocation — directory pages are
/// cheap to re-walk; an event that does not belong to the stage changes
/// nothing and stops, so a confused runner cannot corrupt the sequence.
pub open spec fn driver_spec(stage: PipelineStage, event: DriverEvent) -> (
    PipelineStage,
    DriverAction,
) {
    match (stage, event) {
        (PipelineStage::Discovering, DriverEvent::PageApplied { more }) => if more {
            (PipelineStage::Discovering, DriverAction::FetchDirectoryPage)
        } else {
            (PipelineStage::Draining, DriverAction::DrainQueue)
        },
        (PipelineStage::Discovering, DriverEvent::PageFetchFailed(_)) => (
            PipelineStage::Finished,
            DriverAction::Stop,
        ),
        (PipelineStage::Draining, DriverEvent::DrainFinished { failures }) => (
            PipelineStage::MarkingComplete,
            DriverAction::MarkCompletion { synced: failures == 0 },
        ),
        (PipelineStage::MarkingComplete, DriverEvent::CompletionMarked) => (
            PipelineStage::Finished,
            DriverAction::Stop,
        ),
        _ => (stage, DriverAction::Stop),
    }
}

/// Take one driver step.
pub fn driver_step(stage: PipelineStage, event: DriverEvent) -> (r: (
    PipelineStage,
    DriverAction,
))
    ensures
        r == driver_spec(stage, event),
{
    match (stage, event) {
        (PipelineStage::Discovering, DriverEvent::PageApplied { more }) => {
            if more {
                (PipelineStage::Discovering, DriverAction::FetchDirectoryPage)
            } else {
                (PipelineStage::Draining, DriverAction::DrainQueue)
            }
        },
        (PipelineStage::Discovering, DriverEvent::PageFetchFailed(_)) => (
            PipelineStage::Finished,
            DriverAction::Stop,
        ),
        (PipelineStage::Draining, DriverEvent::DrainFinished { failures }) => (
            PipelineStage::MarkingComplete,
            DriverAction::MarkCompletion { synced: failures == 0 },
        ),
        (PipelineStage::MarkingComplete, DriverEvent::CompletionMarked) => (
            PipelineStage::Finished,
            DriverAction::Stop,
        ),
        (s, _) => (s, DriverAction::Stop),
    }
}

/// A finished pipeline stays finished: no event restarts it.
pub proof fn lemma_finished_is_terminal(event: DriverEvent)
    ensures
        driver_spec(PipelineStage::Finished, event).0 == PipelineStage::Finished,
        driver_spec(PipelineStage::Finished, event).1 == DriverAction::Stop,
{
}

} // verus!
