//! The vocabulary shared by the engine, the export bridge and whoever drives
//! them: what to do next, and what came of it.

use vstd::prelude::*;

verus! {

/// The three procedures a benchmark case can register.
#[derive(Clone, Copy, Debug, PartialEq, Eq, Structural)]
pub enum Stage {
    /// Establishes preconditions; runs before the measurement window opens.
    Prepare,
    /// The procedure whose resource consumption is recorded.
    Measured,
    /// Checks the effect of the measured step; runs after the window closed.
    Verify,
}

/// What the driver has to do next.
#[derive(Clone, Copy, Debug, PartialEq, Eq, Structural)]
pub enum Action {
    /// Hand the engine to the registered benchmark function with this
    /// position in declaration order, then report `Event::Configured`.
    Configure(usize),
    /// Call the current case's procedure for this stage, then report
    /// `Event::Completed`, or `Event::Failed` with the diagnostic.
    Invoke(Stage),
    /// Read the resource meter and report the reading: it opens the
    /// measurement window.
    Before,
    /// Read the resource meter and report the reading: it closes the
    /// measurement window.
    After,
    /// Nothing is left to do; the outcome can be collected.
    Finished,
    /// A fatal failure ended the run; no result will come.
    Aborted,
}

/// What the driver reports back.
#[derive(Clone, Debug, PartialEq, Eq)]
pub enum Event {
    /// The benchmark function returned; the engine holds its case.
    Configured,
    /// The invoked procedure returned normally.
    Completed,
    /// The invoked procedure, or the benchmark function, failed
    /// unrecoverably; the text is its diagnostic message.
    Failed(String),
    /// The resource meter's counter, read just now.
    Reading(u64),
}

/// The mathematical value of an [`Event`].
pub enum EventView {
    Configured,
    Completed,
    Failed(Seq<char>),
    Reading(u64),
}

impl View for Event {
    type V = EventView;

    open spec fn view(&self) -> EventView {
        match *self {
            Event::Configured => EventView::Configured,
            Event::Completed => EventView::Completed,
            Event::Failed(message) => EventView::Failed(message@),
            Event::Reading(reading) => EventView::Reading(reading),
        }
    }
}

/// Why a run ended without results.
#[derive(Clone, Debug, PartialEq, Eq)]
pub enum Failure {
    /// A case was to run with no measured step registered.
    Configuration,
    /// Guest code failed during configuration, prepare, measurement or
    /// verification; the text is its diagnostic message.
    Guest(String),
}

/// The mathematical value of a [`Failure`].
pub enum FailureView {
    Configuration,
    Guest(Seq<char>),
}

impl View for Failure {
    type V = FailureView;

    open spec fn view(&self) -> FailureView {
        match *self {
            Failure::Configuration => FailureView::Configuration,
            Failure::Guest(message) => FailureView::Guest(message@),
        }
    }
}

/// The diagnostic of a run that was aborted because a case had no measured
/// step.
pub const NO_MEASURED_STEP: &'static str = "a benchmark registered no measured step";

impl FailureView {
    /// The diagnostic message of the failure.
    pub open spec fn message(self) -> Seq<char> {
        match self {
            FailureView::Configuration => NO_MEASURED_STEP@,
            FailureView::Guest(message) => message,
        }
    }
}

impl Failure {
    /// The diagnostic message of the failure: the guest's own for a guest
    /// failure, [`NO_MEASURED_STEP`] for a configuration error.
    pub fn message(&self) -> (m: String)
        ensures
            m@ == self@.message(),
    {
        match self {
            Failure::Configuration => NO_MEASURED_STEP.to_owned(),
            Failure::Guest(message) => message.clone(),
        }
    }
}

/// The view of a text that may be absent.
pub open spec fn text(s: Option<String>) -> Option<Seq<char>> {
    match s {
        Some(t) => Some(t@),
        None => None,
    }
}

} // verus!
