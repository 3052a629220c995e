//! The pipeline driver: which step of a run comes next.
//!
//! A run reads the summary page, opens the output sink, then takes the links
//! of the summary page one by one: it reads the detail page, and either
//! appends its findings to the sink or skips the page. Reading and writing
//! are the caller's work. The [`Pipeline`] decides: it is told what happened
//! as an [`Event`] and answers with the [`Action`] to perform next. It never
//! goes back to an earlier stage and never takes a link twice.

use crate::findings::{ExtractionError, Finding, FindingView};
use crate::links::DiscoveryError;
use crate::paths::{containing_directory, directory_of, resolve_link, resolved};
use vstd::prelude::*;

verus! {

/// Where a run stands.
#[derive(Debug, Clone, Copy, PartialEq, Eq, Structural)]
pub enum Stage {
    /// Nothing is known yet; the summary page is to be read.
    Start,
    /// The links are known; the sink is to be opened.
    LinksDiscovered,
    /// The detail page of the current link is to be read.
    Extracting,
    /// The findings of the current link were handed out to be written.
    Appended,
    /// The current link was given up.
    Skipped,
    /// Every link was taken and the sink is to be closed: the run succeeded.
    Closed,
    /// The run failed.
    Aborted,
}

/// Why a run failed as a whole.
#[derive(Debug, Clone, Copy, PartialEq, Eq, Structural)]
pub enum PipelineError {
    /// No links could be taken from the summary page.
    Discovery(DiscoveryError),
    /// The output sink could not be opened.
    Sink,
    /// The pipeline was told of something that cannot happen at its stage.
    UnexpectedEvent,
}

/// What the caller reports to the pipeline.
#[derive(Debug, PartialEq, Eq)]
pub enum Event {
    /// The summary page was read, with this result.
    Discovered(Result<Vec<String>, DiscoveryError>),
    /// The sink was opened, or could not be.
    SinkOpened(bool),
    /// The detail page of the current link was read, with this result.
    Extracted(Result<Vec<Finding>, ExtractionError>),
    /// The last `Append` or `Skip` was carried out.
    Written,
}

/// The mathematical value of an [`Event`].
pub ghost enum EventView {
    Discovered(Result<Seq<Seq<char>>, DiscoveryError>),
    SinkOpened(bool),
    Extracted(Result<Seq<FindingView>, ExtractionError>),
    Written,
}

impl View for Event {
    type V = EventView;

    open spec fn view(&self) -> EventView {
        match self {
            Event::Discovered(Ok(links)) => EventView::Discovered(Ok(links.deep_view())),
            Event::Discovered(Err(error)) => EventView::Discovered(Err(*error)),
            Event::SinkOpened(opened) => EventView::SinkOpened(*opened),
            Event::Extracted(Ok(findings)) => EventView::Extracted(Ok(findings.deep_view())),
            Event::Extracted(Err(error)) => EventView::Extracted(Err(*error)),
            Event::Written => EventView::Written,
        }
    }
}

/// What the caller is to do next.
#[derive(Debug, PartialEq, Eq)]
pub enum Action {
    /// Read the summary page at this path and report its links.
    Discover(String),
    /// Open the output sink.
    OpenSink,
    /// Read the detail page at this path and report its findings.
    Extract(String),
    /// Append these findings to the sink, in this order, and flush it.
    Append(Vec<Finding>),
    /// Note that the page at this path was skipped, and why.
    Skip(String, ExtractionError),
    /// Flush and close the sink; the run has succeeded.
    Close,
    /// Give up; the run has failed with this error.
    Abort(PipelineError),
}

/// The mathematical value of an [`Action`].
pub ghost enum ActionView {
    Discover(Seq<char>),
    OpenSink,
    Extract(Seq<char>),
    Append(Seq<FindingView>),
    Skip(Seq<char>, ExtractionError),
    Close,
    Abort(PipelineError),
}

impl View for Action {
    type V = ActionView;

    open spec fn view(&self) -> ActionView {
        match self {
            Action::Discover(path) => ActionView::Discover(path@),
            Action::OpenSink => ActionView::OpenSink,
            Action::Extract(path) => ActionView::Extract(path@),
            Action::Append(findings) => ActionView::Append(findings.deep_view()),
            Action::Skip(path, why) => ActionView::Skip(path@, *why),
            Action::Close => ActionView::Close,
            Action::Abort(error) => ActionView::Abort(*error),
        }
    }
}

/// The state of one run.
pub struct Pipeline {
    stage: Stage,
    base: String,
    links: Vec<String>,
    cursor: usize,
}

/// The mathematical value of a [`Pipeline`]: its stage, the directory of the
/// summary page, the links of the summary page, and the position of the
/// current link among them.
pub ghost struct PipelineView {
    pub stage: Stage,
    pub base: Seq<char>,
    pub links: Seq<Seq<char>>,
    pub cursor: nat,
}

impl View for Pipeline {
    type V = PipelineView;

    closed spec fn view(&self) -> PipelineView {
        PipelineView {
            stage: self.stage,
            base: self.base@,
            links: self.links.deep_view(),
            cursor: self.cursor as nat,
        }
    }
}

/// The state in which every run begins.
pub open spec fn initial(summary_path: Seq<char>) -> PipelineView {
    PipelineView {
        stage: Stage::Start,
        base: directory_of(summary_path),
        links: Seq::empty(),
        cursor: 0,
    }
}

/// The run is over, well or badly.
pub open spec fn halted(state: PipelineView) -> bool {
    state.stage is Closed || state.stage is Aborted
}

/// What every state of a run satisfies: while a link is being dealt with,
/// the cursor points at a link; before that it is zero, and it never passes
/// the end of the links.
pub open spec fn well_formed(state: PipelineView) -> bool {
    match state.stage {
        Stage::Start => state.links.len() == 0 && state.cursor == 0,
        Stage::LinksDiscovered => state.cursor == 0,
        Stage::Extracting | Stage::Appended | Stage::Skipped => state.cursor < state.links.len(),
        Stage::Closed | Stage::Aborted => state.cursor <= state.links.len(),
    }
}

/// The path of the detail page that link `index` points to.
pub open spec fn detail_path(state: PipelineView, index: int) -> Seq<char> {
    resolved(state.base, state.links[index])
}

/// Turning to link `index`: its page is to be read, or, past the last link,
/// the sink is to be closed.
pub open spec fn turn_to(state: PipelineView, index: nat) -> (PipelineView, ActionView) {
    if index < state.links.len() {
        (
            PipelineView { stage: Stage::Extracting, cursor: index, ..state },
            ActionView::Extract(detail_path(state, index as int)),
        )
    } else {
        (PipelineView { stage: Stage::Closed, cursor: index, ..state }, ActionView::Close)
    }
}

/// Giving up with `error`. A run that is over stays as it is.
pub open spec fn give_up(state: PipelineView, error: PipelineError) -> (PipelineView, ActionView) {
    if halted(state) {
        (state, ActionView::Abort(error))
    } else {
        (PipelineView { stage: Stage::Aborted, ..state }, ActionView::Abort(error))
    }
}

/// The state that follows `state` on `event`, and the action that the caller
/// is to perform then.
pub open spec fn next(state: PipelineView, event: EventView) -> (PipelineView, ActionView) {
    match (state.stage, event) {
        (Stage::Start, EventView::Discovered(Ok(links))) => (
            PipelineView { stage: Stage::LinksDiscovered, links, ..state },
            ActionView::OpenSink,
        ),
        (Stage::Start, EventView::Discovered(Err(error))) => give_up(
            state,
            PipelineError::Discovery(error),
        ),
        (Stage::LinksDiscovered, EventView::SinkOpened(true)) => turn_to(state, 0),
        (Stage::LinksDiscovered, EventView::SinkOpened(false)) => give_up(
            state,
            PipelineError::Sink,
        ),
        (Stage::Extracting, EventView::Extracted(Ok(findings))) => (
            PipelineView { stage: Stage::Appended, ..state },
            ActionView::Append(findings),
        ),
        (Stage::Extracting, EventView::Extracted(Err(why))) => (
            PipelineView { stage: Stage::Skipped, ..state },
            ActionView::Skip(detail_path(state, state.cursor as int), why),
        ),
        (Stage::Appended, EventView::Written) => turn_to(state, state.cursor + 1),
        (Stage::Skipped, EventView::Written) => turn_to(state, state.cursor + 1),
        _ => give_up(state, PipelineError::UnexpectedEvent),
    }
}

impl Pipeline {
    /// The invariant of the state.
    #[verifier::type_invariant]
    spec fn wf(&self) -> bool {
        well_formed(self@)
    }

    /// Begins a run on the summary page at `summary_path`: the first action
    /// is to read that page.
    pub fn start(summary_path: &str) -> (begun: (Pipeline, Action))
        ensures
            begun.0@ == initial(summary_path@),
            begun.1@ == ActionView::Discover(summary_path@),
    {
        let pipeline = Pipeline {
            stage: Stage::Start,
            base: containing_directory(summary_path),
            links: Vec::new(),
            cursor: 0,
        };
        assert(pipeline.links.deep_view() =~= Seq::empty());
        (pipeline, Action::Discover(summary_path.to_owned()))
    }

    /// The stage of the run.
    pub fn stage(&self) -> (stage: Stage)
        ensures
            stage == self@.stage,
    {
        self.stage
    }

    /// Whether the run is over.
    pub fn is_halted(&self) -> (over: bool)
        ensures
            over == halted(self@),
    {
        match self.stage {
            Stage::Closed => true,
            Stage::Aborted => true,
            _ => false,
        }
    }

    fn give_up(&mut self, error: PipelineError) -> (action: Action)
        ensures
            (final(self)@, action@) == give_up(old(self)@, error),
    {
        proof {
            use_type_invariant(&*self);
        }
        if !self.is_halted() {
            self.stage = Stage::Aborted;
        }
        Action::Abort(error)
    }

    fn turn_to(&mut self, index: usize) -> (action: Action)
        requires
            index <= old(self).links.len(),
            !(old(self).stage is Start),
            old(self).stage is LinksDiscovered ==> index == 0,
        ensures
            (final(self)@, action@) == turn_to(old(self)@, index as nat),
    {
        proof {
            use_type_invariant(&*self);
        }
        if index < self.links.len() {
            self.cursor = index;
            self.stage = Stage::Extracting;
            assert(self.links.deep_view()[index as int] == self.links@[index as int]@);
            Action::Extract(resolve_link(self.base.as_str(), self.links[index].as_str()))
        } else {
            self.stage = Stage::Closed;
            self.cursor = index;
            Action::Close
        }
    }

    /// Takes note of `event` and says what is to be done next.
    ///
    /// An event that cannot happen at the current stage aborts the run. Once
    /// the run is over, the state no longer changes.
    pub fn step(&mut self, event: Event) -> (action: Action)
        ensures
            well_formed(old(self)@),
            well_formed(final(self)@),
            (final(self)@, action@) == next(old(self)@, event@),
    {
        proof {
            use_type_invariant(&*self);
        }
        match self.stage {
            Stage::Start => match event {
                Event::Discovered(Ok(links)) => {
                    self.stage = Stage::LinksDiscovered;
                    self.links = links;
                    Action::OpenSink
                },
                Event::Discovered(Err(error)) => self.give_up(PipelineError::Discovery(error)),
                _ => self.give_up(PipelineError::UnexpectedEvent),
            },
            Stage::LinksDiscovered => match event {
                Event::SinkOpened(true) => self.turn_to(0),
                Event::SinkOpened(false) => self.give_up(PipelineError::Sink),
                _ => self.give_up(PipelineError::UnexpectedEvent),
            },
            Stage::Extracting => match event {
                Event::Extracted(Ok(findings)) => {
                    self.stage = Stage::Appended;
                    Action::Append(findings)
                },
                Event::Extracted(Err(why)) => {
                    self.stage = Stage::Skipped;
                    assert(self.links.deep_view()[self.cursor as int]
                        == self.links@[self.cursor as int]@);
                    Action::Skip(
                        resolve_link(self.base.as_str(), self.links[self.cursor].as_str()),
                        why,
                    )
                },
                _ => self.give_up(PipelineError::UnexpectedEvent),
            },
            Stage::Appended => match event {
                Event::Written => {
                    assert(self.links.deep_view().len() == self.links.len());
                    let following: usize = self.cursor + 1;
                    self.turn_to(following)
                },
                _ => self.give_up(PipelineError::UnexpectedEvent),
            },
            Stage::Skipped => match event {
                Event::Written => {
                    assert(self.links.deep_view().len() == self.links.len());
                    let following: usize = self.cursor + 1;
                    self.turn_to(following)
                },
                _ => self.give_up(PipelineError::UnexpectedEvent),
            },
            _ => self.give_up(PipelineError::UnexpectedEvent),
        }
    }
}

} // verus!
