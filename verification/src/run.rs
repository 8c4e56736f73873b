//! Whole runs: what a sequence of events makes of a state, and what holds of
//! every state that a run can reach.

use vstd::prelude::*;
use crate::model::{lemma_initial_wf, lemma_next_wf, Action, EngineView, Event};
use crate::request::BookView;
use crate::status::{Failure, STATUS_OK};
use crate::timeline::{
    chapter_table, durations_of, lemma_chapter_table_increases, lemma_timeline_table, offset,
    titles_of,
};

verus! {

/// The state after a sequence of events, taken in order.
pub open spec fn run(state: EngineView, events: Seq<Event>) -> EngineView
    decreases events.len(),
{
    if events.len() == 0 {
        state
    } else {
        run(state, events.drop_last()).next(events.last())
    }
}

/// A run of any request, whatever is reported to it, stays among the
/// well-formed states.
pub proof fn lemma_run_wf(state: EngineView, events: Seq<Event>)
    requires
        state.wf(),
    ensures
        run(state, events).wf(),
    decreases events.len(),
{
    if events.len() > 0 {
        lemma_run_wf(state, events.drop_last());
        lemma_next_wf(run(state, events.drop_last()), events.last());
    }
}

/// Running two sequences one after the other is running their concatenation.
pub proof fn lemma_run_concat(state: EngineView, first: Seq<Event>, second: Seq<Event>)
    ensures
        run(state, first + second) == run(run(state, first), second),
    decreases second.len(),
{
    if second.len() == 0 {
        assert(first + second =~= first);
    } else {
        lemma_run_concat(state, first, second.drop_last());
        assert((first + second).drop_last() =~= first + second.drop_last());
        assert((first + second).last() == second.last());
    }
}

/// A run serves one request from start to end.
pub proof fn lemma_request_stays(state: EngineView, events: Seq<Event>)
    ensures
        run(state, events).request == state.request,
    decreases events.len(),
{
    if events.len() > 0 {
        lemma_request_stays(state, events.drop_last());
    }
}

/// A run of one event is one step.
pub proof fn lemma_run_one(state: EngineView, event: Event)
    ensures
        run(state, seq![event]) == state.next(event),
{
    assert(seq![event].drop_last() =~= Seq::<Event>::empty());
    assert(run(state, Seq::<Event>::empty()) == state);
}

/// A run that is over stays as it is: after a failure nothing is finalized,
/// and no later report turns the failure into a success or into another failure.
pub proof fn lemma_final_is_final(state: EngineView, events: Seq<Event>)
    requires
        state.is_final(),
    ensures
        run(state, events) == state,
    decreases events.len(),
{
    if events.len() > 0 {
        lemma_final_is_final(state, events.drop_last());
    }
}

/// One step only moves forward: see [`lemma_run_moves_forward`].
proof fn lemma_next_moves_forward(state: EngineView, event: Event)
    requires
        state.wf(),
    ensures
        state.chapter <= state.next(event).chapter,
        state.timeline.total <= state.next(event).timeline.total,
        state.timeline.table.len() <= state.next(event).timeline.table.len(),
        state.next(event).timeline.table.take(state.timeline.table.len() as int)
            == state.timeline.table,
        state.declared is Some ==> state.next(event).declared == state.declared,
        state.next(event).phase is Layout ==> state.phase is Layout || state.declared is None,
{
    let table = state.timeline.table;
    let after = state.next(event).timeline.table;
    assert(after.take(table.len() as int) =~= table);
}

/// A run only moves forward. The running total never decreases, the table
/// only grows at its end, no chapter is taken up again, and the audio stream,
/// once declared, keeps its parameters: the output is laid out once, and
/// every later chapter is held against that one stream.
pub proof fn lemma_run_moves_forward(state: EngineView, events: Seq<Event>)
    requires
        state.wf(),
    ensures
        state.chapter <= run(state, events).chapter,
        state.timeline.total <= run(state, events).timeline.total,
        state.timeline.table.len() <= run(state, events).timeline.table.len(),
        run(state, events).timeline.table.take(state.timeline.table.len() as int)
            == state.timeline.table,
        state.declared is Some ==> run(state, events).declared == state.declared,
        state.declared is Some && !(state.phase is Layout) ==> !(run(state, events).phase
            is Layout),
    decreases events.len(),
{
    let table = state.timeline.table;
    if events.len() == 0 {
        assert(table.take(table.len() as int) =~= table);
    } else {
        let before = run(state, events.drop_last());
        let after = run(state, events);
        lemma_run_moves_forward(state, events.drop_last());
        lemma_run_wf(state, events.drop_last());
        lemma_next_moves_forward(before, events.last());
        assert(after.timeline.table.take(table.len() as int) =~= before.timeline.table.take(
            table.len() as int,
        )) by {
            assert(after.timeline.table.take(before.timeline.table.len() as int)
                == before.timeline.table);
        }
    }
}

/// The status is zero exactly when the book was produced, and nonzero exactly
/// when the run failed. Only a run that is over has a status.
pub proof fn lemma_status(state: EngineView)
    ensures
        state.status() == Some(STATUS_OK) <==> state.phase is Done,
        state.status() is Some && state.status() != Some(STATUS_OK) <==> state.phase is Aborted,
        state.status() is Some <==> state.is_final(),
{
}

/// What makes a run fail, and nothing else does: a source that cannot be
/// opened or read, a later chapter whose parameters do not fit the declared
/// stream, an output that cannot be created, written or finalized, and a
/// packet that lies beyond the clock's range. The cover art never does.
pub proof fn lemma_failure_causes(state: EngineView, event: Event)
    requires
        state.wf(),
        !state.is_final(),
    ensures
        state.next(event).phase is Aborted <==> match event {
            Event::SourceFailed(_) => state.phase is Opening || state.phase is Streaming,
            Event::Opened(params) => state.phase is Opening && state.declared is Some
                && !state.declared.unwrap().spec_compatible(params),
            Event::OutputFailed => state.phase is Layout || state.phase is Forwarding
                || state.phase is Finalizing,
            Event::Packet(packet) => state.phase is Streaming && !state.timeline.fits(packet),
            _ => false,
        },
        state.next(event).phase is Aborted ==> state.next(event).phase->Aborted_0.failure
            == match event {
            Event::SourceFailed(error) => error.spec_failure(),
            Event::Opened(_) => Failure::CodecMismatch,
            _ => Failure::OutputWriteFailure,
        },
{
}

/// When a run fails, the engine asks for exactly what the run holds to be
/// released: the source if one is open, the output if it was begun. The
/// only action that puts a file under the requested name is never asked for then.
pub proof fn lemma_failure_releases(state: EngineView, event: Event)
    requires
        state.wf(),
        !state.is_final(),
        state.next(event).phase is Aborted,
    ensures
        state.next(event).phase->Aborted_0.discard_output == state.output_begun(),
        state.next(event).phase->Aborted_0.close_source == (state.source_open() || (
        state.phase is Opening && event is Opened)),
        state.next(event).pending() == Action::Abort(state.next(event).phase->Aborted_0),
        state.next(event).pending() != Action::Finalize,
{
}

/// The table of a run that produced its book: one entry per chapter of the
/// request, under the request's titles in order, contiguous from zero to the
/// running total, which is the sum of the entries' durations.
pub proof fn lemma_done_table(state: EngineView)
    requires
        state.wf(),
        state.phase is Done,
    ensures
        state.timeline.table.len() == state.request.chapters.len(),
        state.timeline.table == chapter_table(
            state.request.titles(),
            durations_of(state.timeline.table),
        ),
        state.timeline.total == offset(
            durations_of(state.timeline.table),
            state.request.chapters.len() as int,
        ),
        state.timeline.table[0].start == 0,
        state.timeline.table.last().end == state.timeline.total,
        forall|i: int|
            0 <= i < state.timeline.table.len() - 1 ==> (#[trigger] state.timeline.table[i]).end
                == state.timeline.table[i + 1].start,
        forall|i: int|
            0 <= i < state.timeline.table.len() ==> (#[trigger] state.timeline.table[i]).title
                == state.request.chapters[i].title,
{
    lemma_table_so_far(state);
}

/// Whatever is reported to it, a run that ends with the book has written
/// every chapter: its table has one entry per chapter of the request, under
/// the request's titles in order, contiguous from zero to the running total,
/// which is the sum of the entries' durations.
pub proof fn lemma_produced_book(request: BookView, events: Seq<Event>)
    requires
        request.chapters.len() <= usize::MAX,
        run(EngineView::initial(request), events).phase is Done,
    ensures
        run(EngineView::initial(request), events).request == request,
        run(EngineView::initial(request), events).timeline.table.len() == request.chapters.len(),
        run(EngineView::initial(request), events).timeline.table == chapter_table(
            request.titles(),
            durations_of(run(EngineView::initial(request), events).timeline.table),
        ),
        run(EngineView::initial(request), events).timeline.total == offset(
            durations_of(run(EngineView::initial(request), events).timeline.table),
            request.chapters.len() as int,
        ),
{
    let initial = EngineView::initial(request);
    lemma_initial_wf(request);
    lemma_run_wf(initial, events);
    lemma_request_stays(initial, events);
    lemma_done_table(run(initial, events));
}

/// At any moment of a run the table holds the chapters exhausted so far: it
/// is the table of a book made of the first titles of the request.
pub proof fn lemma_table_so_far(state: EngineView)
    requires
        state.wf(),
    ensures
        state.timeline.table.len() == state.entered() <= state.request.chapters.len(),
        state.timeline.table == chapter_table(
            state.request.titles().take(state.entered() as int),
            durations_of(state.timeline.table),
        ),
        state.timeline.total == offset(
            durations_of(state.timeline.table),
            state.entered() as int,
        ),
        forall|i: int|
            0 <= i < state.timeline.table.len() - 1 ==> (#[trigger] state.timeline.table[i]).end
                == state.timeline.table[i + 1].start,
{
    let table = state.timeline.table;
    lemma_timeline_table(state.timeline);
    assert(titles_of(table) =~= state.request.titles().take(
        state.entered() as int,
    ));
    assert forall|i: int| 0 <= i < table.len() - 1 implies (#[trigger] table[i]).end == table[i
        + 1].start by {
        assert(table[i + 1].start == table[i].end);
    }
}

/// In the table of any state of a run, a later entry starts no earlier than
/// an earlier one ends, and strictly later than the earlier one starts
/// unless that one is empty.
pub proof fn lemma_table_increases(state: EngineView, i: int, j: int)
    requires
        state.wf(),
        0 <= i < j < state.timeline.table.len(),
    ensures
        state.timeline.table[i].end <= state.timeline.table[j].start,
        state.timeline.table[i].start <= state.timeline.table[j].start,
        state.timeline.table[i].start < state.timeline.table[i].end ==> state.timeline.table[i].start
            < state.timeline.table[j].start,
{
    let table = state.timeline.table;
    lemma_timeline_table(state.timeline);
    lemma_chapter_table_increases(titles_of(table), durations_of(table), i, j);
}

/// Two states differ at most in whether the cover art is in hand.
pub open spec fn same_audio(a: EngineView, b: EngineView) -> bool {
    a == (EngineView { picture: a.picture, ..b })
}

/// Once the cover art is settled, no step looks at it again: two states that
/// differ only in the picture stay so under the same events.
proof fn lemma_picture_carries(a: EngineView, b: EngineView, events: Seq<Event>)
    requires
        same_audio(a, b),
        !(a.phase is Idle),
    ensures
        same_audio(run(a, events), run(b, events)),
        !(run(a, events).phase is Idle),
    decreases events.len(),
{
    if events.len() > 0 {
        lemma_picture_carries(a, b, events.drop_last());
    }
}

/// The cover art is cosmetic: whether it could be fetched or not, the same
/// reports from sources and output lead to the same phase, the same status,
/// the same declared audio stream and the same chapter table.
pub proof fn lemma_artwork_is_cosmetic(request: BookView, events: Seq<Event>)
    ensures
        same_audio(
            run(EngineView::initial(request), seq![Event::ArtworkFetched] + events),
            run(EngineView::initial(request), seq![Event::ArtworkMissing] + events),
        ),
{
    let initial = EngineView::initial(request);
    lemma_run_concat(initial, seq![Event::ArtworkFetched], events);
    lemma_run_concat(initial, seq![Event::ArtworkMissing], events);
    lemma_run_one(initial, Event::ArtworkFetched);
    lemma_run_one(initial, Event::ArtworkMissing);
    let fetched = initial.next(Event::ArtworkFetched);
    let missing = initial.next(Event::ArtworkMissing);
    if initial.phase is Idle {
        lemma_picture_carries(fetched, missing, events);
    } else {
        assert(fetched == missing);
    }
}

/// The output carries a picture only if the request names cover art and the
/// art was fetched: without an address none is asked for, and after a failed
/// fetch the run goes on without one.
pub proof fn lemma_picture_needs_artwork(request: BookView, events: Seq<Event>)
    requires
        request.chapters.len() <= usize::MAX,
    ensures
        !request.wants_artwork() ==> !run(EngineView::initial(request), events).picture,
        !request.wants_artwork() ==> run(EngineView::initial(request), events).pending()
            != Action::FetchArtwork,
        !run(EngineView::initial(request), seq![Event::ArtworkMissing] + events).picture,
{
    let initial = EngineView::initial(request);
    lemma_initial_wf(request);
    lemma_run_wf(initial, events);
    lemma_run_concat(initial, seq![Event::ArtworkMissing], events);
    lemma_run_one(initial, Event::ArtworkMissing);
    let missing = initial.next(Event::ArtworkMissing);
    lemma_picture_stays(missing, events);
}

/// Outside the idle phase no event changes whether the cover art is in hand.
proof fn lemma_picture_stays(state: EngineView, events: Seq<Event>)
    requires
        !(state.phase is Idle),
    ensures
        run(state, events).picture == state.picture,
        !(run(state, events).phase is Idle),
    decreases events.len(),
{
    if events.len() > 0 {
        lemma_picture_stays(state, events.drop_last());
    }
}

/// A run is a function of what it is given, and of no more than this: the
/// chapters' titles, whether cover art is named, and the events. Two
/// requests that agree in these give, under the same events, the same
/// phase, status, audio stream, running total and chapter table; the
/// addresses and the book's title play no part.
pub proof fn lemma_same_input_same_output(a: BookView, b: BookView, events: Seq<Event>)
    requires
        a.titles() == b.titles(),
        a.wants_artwork() == b.wants_artwork(),
        a.chapters.len() <= usize::MAX,
    ensures
        run(EngineView::initial(a), events) == (EngineView {
            request: a,
            ..run(EngineView::initial(b), events)
        }),
    decreases events.len(),
{
    assert(a.chapters.len() == a.titles().len());
    assert(b.chapters.len() == b.titles().len());
    if events.len() > 0 {
        let front = events.drop_last();
        lemma_same_input_same_output(a, b, front);
        lemma_initial_wf(a);
        lemma_run_wf(EngineView::initial(a), front);
        let state = run(EngineView::initial(a), front);
        if state.chapter < a.chapters.len() {
            assert(a.titles()[state.chapter as int] == a.chapters[state.chapter as int].title);
            assert(b.titles()[state.chapter as int] == b.chapters[state.chapter as int].title);
        }
        lemma_request_stays(EngineView::initial(b), front);
    }
}

} // verus!
