//! Whole runs of the pipeline: what holds of every sequence of steps.

use crate::findings::{ExtractionError, FindingView};
use crate::links::DiscoveryError;
use crate::paths::directory_of;
use crate::pipeline::{
    detail_path, halted, initial, next, well_formed, ActionView, EventView, PipelineError,
    PipelineView, Stage,
};
use vstd::prelude::*;

verus! {

/// How far a run has come. Every step of a run that is not over raises it.
pub open spec fn progress(state: PipelineView) -> nat {
    match state.stage {
        Stage::Start => 0,
        Stage::LinksDiscovered => 1,
        Stage::Extracting => 2 + 2 * state.cursor,
        Stage::Appended | Stage::Skipped => 3 + 2 * state.cursor,
        Stage::Closed | Stage::Aborted => 2 + 2 * state.links.len(),
    }
}

/// The state after the events `events`, one step each, and the actions that
/// the steps asked for.
pub open spec fn run(state: PipelineView, events: Seq<EventView>) -> (PipelineView, Seq<ActionView>)
    decreases events.len(),
{
    if events.len() == 0 {
        (state, Seq::empty())
    } else {
        let (then, action) = next(state, events.first());
        let (end, later) = run(then, events.drop_first());
        (end, seq![action] + later)
    }
}

/// The findings that `actions` append to the sink, in the order in which it
/// receives them.
pub open spec fn appended(actions: Seq<ActionView>) -> Seq<FindingView>
    decreases actions.len(),
{
    if actions.len() == 0 {
        Seq::empty()
    } else {
        let rest = appended(actions.drop_first());
        match actions.first() {
            ActionView::Append(findings) => findings + rest,
            _ => rest,
        }
    }
}

/// The paths of the detail pages that `actions` ask to read, in order.
pub open spec fn requested(actions: Seq<ActionView>) -> Seq<Seq<char>>
    decreases actions.len(),
{
    if actions.len() == 0 {
        Seq::empty()
    } else {
        let rest = requested(actions.drop_first());
        match actions.first() {
            ActionView::Extract(path) => seq![path] + rest,
            _ => rest,
        }
    }
}

/// The findings of the pages that could be extracted, page after page.
pub open spec fn kept(results: Seq<Result<Seq<FindingView>, ExtractionError>>) -> Seq<FindingView>
    decreases results.len(),
{
    if results.len() == 0 {
        Seq::empty()
    } else {
        let rest = kept(results.drop_first());
        match results.first() {
            Ok(findings) => findings + rest,
            Err(_) => rest,
        }
    }
}

/// What a caller reports while it works through the links: for each page
/// its result, then that the result was dealt with.
pub open spec fn reports(results: Seq<Result<Seq<FindingView>, ExtractionError>>) -> Seq<EventView>
    decreases results.len(),
{
    if results.len() == 0 {
        Seq::empty()
    } else {
        seq![EventView::Extracted(results.first()), EventView::Written] + reports(
            results.drop_first(),
        )
    }
}

/// The paths of the detail pages of the links from position `from` on.
pub open spec fn paths_from(state: PipelineView, from: int) -> Seq<Seq<char>>
    recommends
        0 <= from <= state.links.len(),
{
    Seq::new((state.links.len() - from) as nat, |i: int| detail_path(state, from + i))
}

/// A step keeps the invariant of the state.
pub proof fn lemma_step_keeps_well_formed(state: PipelineView, event: EventView)
    requires
        well_formed(state),
    ensures
        well_formed(next(state, event).0),
{
}

/// No step goes back: a step of a run that is not over raises its progress.
/// So no stage is entered twice for one link, and no link is taken again.
pub proof fn lemma_step_advances(state: PipelineView, event: EventView)
    requires
        well_formed(state),
        !halted(state),
    ensures
        progress(next(state, event).0) > progress(state),
        next(state, event).0.cursor >= state.cursor,
{
}

/// A run that is over stays as it is, whatever it is told.
pub proof fn lemma_halted_is_final(state: PipelineView, event: EventView)
    requires
        halted(state),
    ensures
        next(state, event).0 == state,
        next(state, event).1 is Abort,
{
}

/// The directory of the summary page never changes, and the links do not
/// change once they are known.
pub proof fn lemma_links_are_fixed(state: PipelineView, event: EventView)
    ensures
        next(state, event).0.base == state.base,
        !(state.stage is Start) ==> next(state, event).0.links == state.links,
{
}

/// One failed page costs nothing but itself: when a page cannot be
/// extracted, the run goes on to the next link, or closes after the last.
pub proof fn lemma_failed_page_is_skipped(state: PipelineView, why: ExtractionError)
    requires
        well_formed(state),
        state.stage is Extracting,
    ensures
        ({
            let (skipped, report) = next(state, EventView::Extracted(Err(why)));
            let (then, action) = next(skipped, EventView::Written);
            &&& report == ActionView::Skip(detail_path(state, state.cursor as int), why)
            &&& skipped.stage is Skipped
            &&& then.cursor == state.cursor + 1
            &&& if state.cursor + 1 < state.links.len() {
                then.stage is Extracting && action == ActionView::Extract(
                    detail_path(state, state.cursor as int + 1),
                )
            } else {
                then.stage is Closed && action == ActionView::Close
            }
        }),
{
}

/// The run on one event and then on more events.
proof fn lemma_run_first(state: PipelineView, event: EventView, more: Seq<EventView>)
    ensures
        run(state, seq![event] + more) == ({
            let (then, action) = next(state, event);
            let (end, later) = run(then, more);
            (end, seq![action] + later)
        }),
{
    let events = seq![event] + more;
    assert(events.first() == event);
    assert(events.drop_first() =~= more);
}

/// What one action and then more actions append.
proof fn lemma_appended_first(action: ActionView, more: Seq<ActionView>)
    ensures
        appended(seq![action] + more) == match action {
            ActionView::Append(findings) => findings + appended(more),
            _ => appended(more),
        },
{
    let actions = seq![action] + more;
    assert(actions.first() == action);
    assert(actions.drop_first() =~= more);
}

/// What one action and then more actions ask to read.
proof fn lemma_requested_first(action: ActionView, more: Seq<ActionView>)
    ensures
        requested(seq![action] + more) == match action {
            ActionView::Extract(path) => seq![path] + requested(more),
            _ => requested(more),
        },
{
    let actions = seq![action] + more;
    assert(actions.first() == action);
    assert(actions.drop_first() =~= more);
}

/// After the end nothing happens: whatever a run that is over is told, it
/// stays as it is, asks for no page and appends nothing.
pub proof fn lemma_nothing_after_the_end(state: PipelineView, events: Seq<EventView>)
    requires
        halted(state),
    ensures
        run(state, events).0 == state,
        run(state, events).1.len() == events.len(),
        appended(run(state, events).1) == Seq::<FindingView>::empty(),
        requested(run(state, events).1) == Seq::<Seq<char>>::empty(),
    decreases events.len(),
{
    if events.len() > 0 {
        let (then, action) = next(state, events.first());
        lemma_nothing_after_the_end(then, events.drop_first());
        let later = run(then, events.drop_first()).1;
        lemma_appended_first(action, later);
        lemma_requested_first(action, later);
    }
}

/// A summary page without links to give is fatal: the run is given up with
/// the error of the discovery, and whatever the caller reports after that,
/// no page is asked for and nothing is appended.
pub proof fn lemma_failed_discovery_is_fatal(
    summary_path: Seq<char>,
    error: DiscoveryError,
    more: Seq<EventView>,
)
    ensures
        ({
            let events = seq![EventView::Discovered(Err(error))] + more;
            let (end, actions) = run(initial(summary_path), events);
            &&& end.stage is Aborted
            &&& actions.first() == ActionView::Abort(PipelineError::Discovery(error))
            &&& appended(actions) == Seq::<FindingView>::empty()
            &&& requested(actions) == Seq::<Seq<char>>::empty()
        }),
{
    let start = initial(summary_path);
    let (then, action) = next(start, EventView::Discovered(Err(error)));
    lemma_run_first(start, EventView::Discovered(Err(error)), more);
    lemma_nothing_after_the_end(then, more);
    let later = run(then, more).1;
    lemma_appended_first(action, later);
    lemma_requested_first(action, later);
}

/// A sink that does not open is fatal: the run is given up, and whatever the
/// caller reports after that, no page is asked for and nothing is appended.
pub proof fn lemma_failed_sink_is_fatal(
    summary_path: Seq<char>,
    links: Seq<Seq<char>>,
    more: Seq<EventView>,
)
    ensures
        ({
            let events = seq![EventView::Discovered(Ok(links)), EventView::SinkOpened(false)]
                + more;
            let (end, actions) = run(initial(summary_path), events);
            &&& end.stage is Aborted
            &&& actions == seq![ActionView::OpenSink, ActionView::Abort(PipelineError::Sink)]
                + run(end, more).1
            &&& appended(actions) == Seq::<FindingView>::empty()
            &&& requested(actions) == Seq::<Seq<char>>::empty()
        }),
{
    let start = initial(summary_path);
    let events = seq![EventView::Discovered(Ok(links)), EventView::SinkOpened(false)] + more;
    let (found, first_action) = next(start, EventView::Discovered(Ok(links)));
    let (failed, second_action) = next(found, EventView::SinkOpened(false));
    assert(events =~= seq![EventView::Discovered(Ok(links))] + (seq![
        EventView::SinkOpened(false),
    ] + more));
    lemma_run_first(found, EventView::SinkOpened(false), more);
    lemma_run_first(
        start,
        EventView::Discovered(Ok(links)),
        seq![EventView::SinkOpened(false)] + more,
    );
    lemma_nothing_after_the_end(failed, more);
    let later = run(failed, more).1;
    lemma_appended_first(second_action, later);
    lemma_appended_first(first_action, seq![second_action] + later);
    lemma_requested_first(second_action, later);
    lemma_requested_first(first_action, seq![second_action] + later);
    assert(seq![first_action] + (seq![second_action] + later) =~= seq![
        ActionView::OpenSink,
        ActionView::Abort(PipelineError::Sink),
    ] + later);
}

/// Working through the remaining links. From a state that waits for the
/// page of its current link, a caller that reports one result for each
/// remaining link brings the run to its close. What was appended is then
/// what the extracted pages hold, page after page in the order of the
/// links; failed pages add nothing. The pages asked for after the current
/// one are those of the later links, in order.
pub proof fn lemma_remaining_links(
    state: PipelineView,
    results: Seq<Result<Seq<FindingView>, ExtractionError>>,
)
    requires
        well_formed(state),
        state.stage is Extracting,
        results.len() == state.links.len() - state.cursor,
    ensures
        ({
            let (end, actions) = run(state, reports(results));
            &&& end.stage is Closed
            &&& end.base == state.base
            &&& end.links == state.links
            &&& end.cursor == state.links.len()
            &&& actions.len() == 2 * results.len()
            &&& actions.last() == ActionView::Close
            &&& appended(actions) == kept(results)
            &&& requested(actions) == paths_from(state, state.cursor as int + 1)
        }),
    decreases results.len(),
{
    let tail = reports(results.drop_first());
    let (first, first_action) = next(state, EventView::Extracted(results.first()));
    let (second, second_action) = next(first, EventView::Written);
    let (end, later) = run(second, tail);
    let actions = seq![first_action] + (seq![second_action] + later);
    assert(reports(results) =~= seq![EventView::Extracted(results.first())] + (seq![
        EventView::Written,
    ] + tail));
    lemma_run_first(first, EventView::Written, tail);
    lemma_run_first(state, EventView::Extracted(results.first()), seq![EventView::Written] + tail);
    assert(run(state, reports(results)) == (end, actions));
    lemma_appended_first(second_action, later);
    lemma_appended_first(first_action, seq![second_action] + later);
    lemma_requested_first(second_action, later);
    lemma_requested_first(first_action, seq![second_action] + later);
    if results.len() == 1 {
        assert(results.drop_first() =~= Seq::empty());
        assert(later =~= Seq::empty());
        assert(requested(actions) =~= paths_from(state, state.cursor as int + 1));
    } else {
        lemma_remaining_links(second, results.drop_first());
        assert(actions.last() == later.last());
        assert forall|i: int| 0 <= i < state.links.len() implies detail_path(second, i)
            == detail_path(state, i) by {}
        assert(requested(actions) =~= paths_from(state, state.cursor as int + 1));
    }
    assert(end.links =~= state.links);
    assert(appended(later) == kept(results.drop_first()));
    match results.first() {
        Ok(findings) => {
            assert(first_action == ActionView::Append(findings));
        },
        Err(_) => {
            assert(first_action is Skip);
        },
    }
    assert(appended(actions) =~= kept(results));
}

/// A whole run. Where the summary page gives `links` and the sink opens, a
/// caller that reports one result for each link brings the run to its close,
/// in two steps for each link and two more. Every page is asked for once,
/// in the order of the links and under the directory of the summary page.
/// What was appended is what the extracted pages hold, page after page;
/// pages that failed add nothing and stop nothing.
pub proof fn lemma_whole_run(
    summary_path: Seq<char>,
    links: Seq<Seq<char>>,
    results: Seq<Result<Seq<FindingView>, ExtractionError>>,
)
    requires
        results.len() == links.len(),
    ensures
        ({
            let events = seq![EventView::Discovered(Ok(links)), EventView::SinkOpened(true)]
                + reports(results);
            let (end, actions) = run(initial(summary_path), events);
            &&& end.stage is Closed
            &&& end.base == directory_of(summary_path)
            &&& end.links == links
            &&& actions.len() == 2 * links.len() + 2
            &&& actions.last() == ActionView::Close
            &&& appended(actions) == kept(results)
            &&& requested(actions) == paths_from(end, 0)
        }),
{
    let start = initial(summary_path);
    let tail = reports(results);
    let events = seq![EventView::Discovered(Ok(links)), EventView::SinkOpened(true)] + tail;
    let (found, first_action) = next(start, EventView::Discovered(Ok(links)));
    let (opened, second_action) = next(found, EventView::SinkOpened(true));
    let (end, later) = run(opened, tail);
    let actions = seq![first_action] + (seq![second_action] + later);
    assert(events =~= seq![EventView::Discovered(Ok(links))] + (seq![EventView::SinkOpened(true)]
        + tail));
    lemma_run_first(found, EventView::SinkOpened(true), tail);
    lemma_run_first(
        start,
        EventView::Discovered(Ok(links)),
        seq![EventView::SinkOpened(true)] + tail,
    );
    assert(run(start, events) == (end, actions));
    lemma_appended_first(second_action, later);
    lemma_appended_first(first_action, seq![second_action] + later);
    lemma_requested_first(second_action, later);
    lemma_requested_first(first_action, seq![second_action] + later);
    if links.len() == 0 {
        assert(results =~= Seq::empty());
        assert(later =~= Seq::empty());
        assert(requested(actions) =~= paths_from(end, 0));
    } else {
        lemma_remaining_links(opened, results);
        assert(actions.last() == later.last());
        assert forall|i: int| 0 <= i < links.len() implies detail_path(opened, i) == detail_path(
            end,
            i,
        ) by {}
        assert(requested(actions) =~= paths_from(end, 0));
    }
    assert(end.links =~= links);
    assert(appended(actions) =~= kept(results));
}

} // verus!
