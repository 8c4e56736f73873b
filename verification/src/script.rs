//! What a run makes of sources that behave, and of one that does not: the
//! events that sources and output give rise to, and what comes of them.

use vstd::prelude::*;
use crate::codec::CodecParams;
use crate::model::{Abort, Action, EngineView, Event, Phase};
use crate::request::BookView;
use crate::run::{lemma_final_is_final, lemma_run_concat, lemma_run_one, run};
use crate::status::{Failure, SourceError, STATUS_OK};
use crate::timeline::{
    chapter_table, lemma_measured_bounds, lemma_measured_least, lemma_measured_push,
    lemma_with_packets, measured, offset, ChapterView, Packet, TimelineView,
};

verus! {

/// What the source of one chapter yields when nothing goes wrong: the
/// parameters of its audio stream and the timing of its packets, in order.
pub struct Source {
    pub params: CodecParams,
    pub packets: Seq<Packet>,
}

/// The measured duration of each source, in order.
pub open spec fn durations(sources: Seq<Source>) -> Seq<nat> {
    Seq::new(sources.len(), |i: int| measured(sources[i].packets))
}

/// Every source has parameters that fit the first one's.
pub open spec fn uniform(sources: Seq<Source>) -> bool {
    forall|i: int|
        0 <= i < sources.len() ==> sources[0].params.spec_compatible((#[trigger] sources[i]).params)
}

/// The events of reading and writing these packets one by one.
pub open spec fn packet_events(packets: Seq<Packet>) -> Seq<Event>
    decreases packets.len(),
{
    if packets.len() == 0 {
        Seq::empty()
    } else {
        packet_events(packets.drop_last()) + seq![Event::Packet(packets.last()), Event::Written]
    }
}

/// The events of opening a source. The first chapter's opening is followed
/// by the creation of the output.
pub open spec fn opening_events(source: Source, first: bool) -> Seq<Event> {
    if first {
        seq![Event::Opened(source.params), Event::OutputReady]
    } else {
        seq![Event::Opened(source.params)]
    }
}

/// The events of one chapter, from the opening of its source to its closing.
pub open spec fn chapter_events(source: Source, first: bool) -> Seq<Event> {
    opening_events(source, first) + packet_events(source.packets) + seq![
        Event::EndOfStream,
        Event::SourceClosed,
    ]
}

/// The events of the first `count` chapters, one chapter after the other.
pub open spec fn chapters_events(sources: Seq<Source>, count: int) -> Seq<Event>
    recommends
        0 <= count <= sources.len(),
    decreases count,
{
    if count <= 0 {
        Seq::empty()
    } else {
        chapters_events(sources, count - 1) + chapter_events(sources[count - 1], count == 1)
    }
}

/// The event that answers the request for cover art, where the request
/// names any; `fetched` says whether the art could be had.
pub open spec fn artwork_events(request: BookView, fetched: bool) -> Seq<Event> {
    if !request.wants_artwork() {
        Seq::empty()
    } else if fetched {
        seq![Event::ArtworkFetched]
    } else {
        seq![Event::ArtworkMissing]
    }
}

/// The events from the start of a run to the opening of chapter `chapter`.
pub open spec fn lead_in(
    request: BookView,
    fetched: bool,
    sources: Seq<Source>,
    chapter: int,
) -> Seq<Event>
    recommends
        0 <= chapter <= sources.len(),
{
    artwork_events(request, fetched) + chapters_events(sources, chapter)
}

/// The events from the start of a run to the moment at which `index` packets
/// of chapter `chapter` have been read and written.
pub open spec fn partway(
    request: BookView,
    fetched: bool,
    sources: Seq<Source>,
    chapter: int,
    index: int,
) -> Seq<Event>
    recommends
        0 <= chapter < sources.len(),
        0 <= index <= sources[chapter].packets.len(),
{
    lead_in(request, fetched, sources, chapter) + opening_events(sources[chapter], chapter == 0)
        + packet_events(sources[chapter].packets.take(index))
}

/// The events of a whole book of which every chapter can be read and the
/// output written.
pub open spec fn book_events(request: BookView, fetched: bool, sources: Seq<Source>) -> Seq<
    Event,
> {
    lead_in(request, fetched, sources, sources.len() as int) + seq![Event::Finalized]
}

/// The state in which the first `count` chapters are behind the engine: the
/// table holds their entries, and the next source is to be opened, or the
/// output finalized after the last.
pub open spec fn after_chapters(
    request: BookView,
    picture: bool,
    sources: Seq<Source>,
    count: int,
) -> EngineView
    recommends
        0 <= count <= sources.len() == request.chapters.len(),
{
    EngineView {
        request,
        phase: if count < request.chapters.len() {
            Phase::Opening
        } else {
            Phase::Finalizing
        },
        chapter: count as nat,
        declared: if count == 0 {
            None
        } else {
            Some(sources[0].params)
        },
        picture,
        timeline: TimelineView {
            total: offset(durations(sources), count),
            span: 0,
            table: chapter_table(request.titles(), durations(sources)).take(count),
        },
    }
}

/// The state in which `index` packets of chapter `chapter` are written and
/// the next one is to be read.
pub open spec fn within_chapter(
    request: BookView,
    picture: bool,
    sources: Seq<Source>,
    chapter: int,
    index: int,
) -> EngineView
    recommends
        0 <= chapter < sources.len() == request.chapters.len(),
        0 <= index <= sources[chapter].packets.len(),
{
    EngineView {
        request,
        phase: Phase::Streaming,
        chapter: chapter as nat,
        declared: Some(sources[0].params),
        picture,
        timeline: TimelineView {
            total: offset(durations(sources), chapter),
            span: measured(sources[chapter].packets.take(index)),
            table: chapter_table(request.titles(), durations(sources)).take(chapter),
        },
    }
}

/// A run of two events is two steps.
proof fn lemma_run_two(state: EngineView, first: Event, second: Event)
    ensures
        run(state, seq![first, second]) == state.next(first).next(second),
{
    assert(seq![first, second].drop_last() =~= seq![first]);
    lemma_run_one(state, first);
}

/// Reading and writing the packets of a chapter leaves the engine where it
/// was, with the packets placed on the timeline.
proof fn lemma_packets_run(state: EngineView, packets: Seq<Packet>)
    requires
        state.phase is Streaming,
        state.timeline.total + measured(packets) <= u64::MAX,
    ensures
        run(state, packet_events(packets)) == (EngineView {
            timeline: state.timeline.with_packets(packets),
            ..state
        }),
    decreases packets.len(),
{
    if packets.len() > 0 {
        let front = packets.drop_last();
        let last = packets.last();
        lemma_measured_push(front, last);
        assert(front.push(last) =~= packets);
        lemma_packets_run(state, front);
        lemma_with_packets(state.timeline, front);
        let middle = run(state, packet_events(front));
        lemma_run_concat(state, packet_events(front), seq![Event::Packet(last), Event::Written]);
        lemma_run_two(middle, Event::Packet(last), Event::Written);
        assert(middle.timeline.fits(last));
    }
}

/// The first packets of a chapter do not reach further than all of them.
proof fn lemma_measured_take(packets: Seq<Packet>, index: int)
    requires
        0 <= index <= packets.len(),
    ensures
        measured(packets.take(index)) <= measured(packets),
{
    let earlier = packets.take(index);
    assert forall|i: int| 0 <= i < earlier.len() implies (#[trigger] earlier[i]).end()
        <= measured(packets) by {
        lemma_measured_bounds(packets, i);
    }
    lemma_measured_least(earlier, measured(packets));
}

/// Opening a source that fits, and reading and writing its first `index`
/// packets, takes the engine from the opening of a chapter into its stream.
proof fn lemma_into_chapter(state: EngineView, source: Source, index: int)
    requires
        state.phase is Opening,
        state.declared is Some <==> state.chapter > 0,
        state.declared is Some ==> state.declared.unwrap().spec_compatible(source.params),
        state.timeline.span == 0,
        0 <= index <= source.packets.len(),
        state.timeline.total + measured(source.packets) <= u64::MAX,
    ensures
        run(
            state,
            opening_events(source, state.chapter == 0) + packet_events(source.packets.take(index)),
        ) == (EngineView {
            phase: Phase::Streaming,
            declared: if state.chapter == 0 {
                Some(source.params)
            } else {
                state.declared
            },
            timeline: TimelineView {
                span: measured(source.packets.take(index)),
                ..state.timeline
            },
            ..state
        }),
{
    let first = state.chapter == 0;
    let earlier = source.packets.take(index);
    let opened = EngineView {
        declared: if first {
            Some(source.params)
        } else {
            state.declared
        },
        phase: Phase::Streaming,
        ..state
    };
    if first {
        lemma_run_two(state, Event::Opened(source.params), Event::OutputReady);
    } else {
        lemma_run_one(state, Event::Opened(source.params));
    }
    assert(run(state, opening_events(source, first)) == opened);
    lemma_measured_take(source.packets, index);
    lemma_packets_run(opened, earlier);
    lemma_with_packets(opened.timeline, earlier);
    lemma_run_concat(state, opening_events(source, first), packet_events(earlier));
}

/// One chapter that can be read takes the engine from the opening of its
/// source to the opening of the next, or to finalizing after the last. It
/// adds one entry to the table: the chapter's title, from the running total
/// to the running total plus the chapter's measured duration.
proof fn lemma_chapter_run(state: EngineView, source: Source)
    requires
        state.phase is Opening,
        state.declared is Some <==> state.chapter > 0,
        state.declared is Some ==> state.declared.unwrap().spec_compatible(source.params),
        state.timeline.span == 0,
        state.timeline.total + measured(source.packets) <= u64::MAX,
    ensures
        run(state, chapter_events(source, state.chapter == 0)) == (EngineView {
            phase: if state.chapter + 1 < state.request.chapters.len() {
                Phase::Opening
            } else {
                Phase::Finalizing
            },
            chapter: state.chapter + 1,
            declared: if state.chapter == 0 {
                Some(source.params)
            } else {
                state.declared
            },
            timeline: TimelineView {
                total: state.timeline.total + measured(source.packets),
                span: 0,
                table: state.timeline.table.push(
                    ChapterView {
                        title: state.request.chapters[state.chapter as int].title,
                        start: state.timeline.total,
                        end: state.timeline.total + measured(source.packets),
                    },
                ),
            },
            ..state
        }),
{
    let opening = opening_events(source, state.chapter == 0);
    let count = source.packets.len() as int;
    assert(source.packets.take(count) =~= source.packets);
    lemma_into_chapter(state, source, count);
    let streamed = run(state, opening + packet_events(source.packets));
    lemma_run_two(streamed, Event::EndOfStream, Event::SourceClosed);
    lemma_run_concat(
        state,
        opening + packet_events(source.packets),
        seq![Event::EndOfStream, Event::SourceClosed],
    );
}

/// The first `count` chapters of a book whose sources all fit the first and
/// whose durations fit the clock take the engine to the state in which they
/// are behind it.
proof fn lemma_chapters_run(request: BookView, picture: bool, sources: Seq<Source>, count: int)
    requires
        0 <= count <= sources.len() == request.chapters.len(),
        uniform(sources),
        offset(durations(sources), count) <= u64::MAX,
    ensures
        run(after_chapters(request, picture, sources, 0), chapters_events(sources, count))
            == after_chapters(request, picture, sources, count),
    decreases count,
{
    let start = after_chapters(request, picture, sources, 0);
    let table = chapter_table(request.titles(), durations(sources));
    if count == 0 {
        assert(table.take(0) =~= Seq::empty());
    } else {
        lemma_chapters_run(request, picture, sources, count - 1);
        let before = after_chapters(request, picture, sources, count - 1);
        let source = sources[count - 1];
        assert(offset(durations(sources), count) == offset(durations(sources), count - 1)
            + measured(source.packets));
        lemma_chapter_run(before, source);
        lemma_run_concat(
            start,
            chapters_events(sources, count - 1),
            chapter_events(source, count == 1),
        );
        let after = run(before, chapter_events(source, count == 1));
        assert(after.timeline.table =~= table.take(count));
    }
}

/// The cover art and the first `chapter` chapters take a run from its start
/// to the state in which those chapters are behind it, whether the art could
/// be fetched or not.
pub proof fn lemma_lead_in(request: BookView, fetched: bool, sources: Seq<Source>, chapter: int)
    requires
        0 <= chapter <= sources.len() == request.chapters.len(),
        sources.len() > 0,
        uniform(sources),
        offset(durations(sources), chapter) <= u64::MAX,
    ensures
        run(EngineView::initial(request), lead_in(request, fetched, sources, chapter))
            == after_chapters(request, fetched && request.wants_artwork(), sources, chapter),
{
    let initial = EngineView::initial(request);
    let picture = fetched && request.wants_artwork();
    let table = chapter_table(request.titles(), durations(sources));
    assert(table.take(0) =~= Seq::empty());
    if request.wants_artwork() {
        if fetched {
            lemma_run_one(initial, Event::ArtworkFetched);
        } else {
            lemma_run_one(initial, Event::ArtworkMissing);
        }
    }
    lemma_chapters_run(request, picture, sources, chapter);
    lemma_run_concat(initial, artwork_events(request, fetched), chapters_events(sources, chapter));
}

/// Within a chapter the running total stands at the chapter's start, and the
/// chapter reaches as far as the packets read so far.
pub proof fn lemma_partway(
    request: BookView,
    fetched: bool,
    sources: Seq<Source>,
    chapter: int,
    index: int,
)
    requires
        0 <= chapter < sources.len() == request.chapters.len(),
        0 <= index <= sources[chapter].packets.len(),
        uniform(sources),
        offset(durations(sources), chapter + 1) <= u64::MAX,
    ensures
        run(EngineView::initial(request), partway(request, fetched, sources, chapter, index))
            == within_chapter(request, fetched && request.wants_artwork(), sources, chapter, index),
{
    let initial = EngineView::initial(request);
    let source = sources[chapter];
    let head = lead_in(request, fetched, sources, chapter);
    let tail = opening_events(source, chapter == 0) + packet_events(source.packets.take(index));
    let before = after_chapters(request, fetched && request.wants_artwork(), sources, chapter);
    assert(offset(durations(sources), chapter + 1) == offset(durations(sources), chapter)
        + measured(source.packets));
    lemma_lead_in(request, fetched, sources, chapter);
    lemma_into_chapter(before, source, index);
    lemma_run_concat(initial, head, tail);
    assert(head + tail =~= partway(request, fetched, sources, chapter, index));
}

/// A book whose chapters can all be read is produced: where every source
/// has the parameters of the first and the measured durations add up within
/// the clock's range, the run ends with status zero, the audio stream
/// declared with the first chapter's parameters, and the table of the
/// request's titles over the measured durations: one entry per chapter,
/// contiguous from zero, the running total being the sum of the durations.
/// Whether the cover art could be fetched decides only whether the output
/// carries a picture.
pub proof fn lemma_book_is_produced(request: BookView, fetched: bool, sources: Seq<Source>)
    requires
        0 < sources.len() == request.chapters.len(),
        uniform(sources),
        offset(durations(sources), sources.len() as int) <= u64::MAX,
    ensures
        run(EngineView::initial(request), book_events(request, fetched, sources)) == (EngineView {
            request,
            phase: Phase::Done,
            chapter: request.chapters.len(),
            declared: Some(sources[0].params),
            picture: fetched && request.wants_artwork(),
            timeline: TimelineView {
                total: offset(durations(sources), sources.len() as int),
                span: 0,
                table: chapter_table(request.titles(), durations(sources)),
            },
        }),
        run(EngineView::initial(request), book_events(request, fetched, sources)).status() == Some(
            STATUS_OK,
        ),
{
    let initial = EngineView::initial(request);
    let count = sources.len() as int;
    let table = chapter_table(request.titles(), durations(sources));
    let finalizing = after_chapters(request, fetched && request.wants_artwork(), sources, count);
    lemma_lead_in(request, fetched, sources, count);
    assert(table.take(count) =~= table);
    lemma_run_one(finalizing, Event::Finalized);
    lemma_run_concat(
        initial,
        lead_in(request, fetched, sources, count),
        seq![Event::Finalized],
    );
}

/// Every packet is written moved by the duration of the chapters before
/// its own, and by nothing else: packet `index` of chapter `chapter` is asked
/// to be written at its own time plus the start of its chapter, and lies
/// within the range that the chapter's entry names.
pub proof fn lemma_packet_is_rebased(
    request: BookView,
    fetched: bool,
    sources: Seq<Source>,
    chapter: int,
    index: int,
)
    requires
        0 <= chapter < sources.len() == request.chapters.len(),
        0 <= index < sources[chapter].packets.len(),
        uniform(sources),
        offset(durations(sources), chapter + 1) <= u64::MAX,
    ensures
        run(
            EngineView::initial(request),
            partway(request, fetched, sources, chapter, index) + seq![
                Event::Packet(sources[chapter].packets[index]),
            ],
        ).pending() == Action::WritePacket(
            Packet {
                pts: (offset(durations(sources), chapter)
                    + sources[chapter].packets[index].pts) as u64,
                duration: sources[chapter].packets[index].duration,
            },
        ),
        offset(durations(sources), chapter) + sources[chapter].packets[index].end() <= offset(
            durations(sources),
            chapter + 1,
        ) <= u64::MAX,
{
    let packet = sources[chapter].packets[index];
    let events = partway(request, fetched, sources, chapter, index);
    let streamed = within_chapter(
        request,
        fetched && request.wants_artwork(),
        sources,
        chapter,
        index,
    );
    lemma_measured_bounds(sources[chapter].packets, index);
    assert(offset(durations(sources), chapter + 1) == offset(durations(sources), chapter)
        + measured(sources[chapter].packets));
    lemma_partway(request, fetched, sources, chapter, index);
    lemma_run_one(streamed, Event::Packet(packet));
    assert(streamed.timeline.fits(packet));
    lemma_run_concat(EngineView::initial(request), events, seq![Event::Packet(packet)]);
}

/// What is left of a run after a failure: nothing that is reported later
/// changes it.
proof fn lemma_aborts(
    initial: EngineView,
    head: Seq<Event>,
    state: EngineView,
    event: Event,
    rest: Seq<Event>,
)
    requires
        run(initial, head) == state,
        state.next(event).phase is Aborted,
    ensures
        run(initial, head + seq![event] + rest) == state.next(event),
{
    lemma_run_one(state, event);
    lemma_run_concat(initial, head, seq![event]);
    lemma_run_concat(initial, head + seq![event], rest);
    lemma_final_is_final(state.next(event), rest);
}

/// A book of which one chapter cannot be opened is not produced, whatever
/// is reported afterwards: when the chapters before it were read and the
/// opening of the next fails, the run ends with that failure's status, which
/// is not zero, and asks for the output to be removed if it was begun.
pub proof fn lemma_unreachable_chapter_aborts(
    request: BookView,
    fetched: bool,
    sources: Seq<Source>,
    failed: int,
    error: SourceError,
    rest: Seq<Event>,
)
    requires
        0 <= failed < sources.len() == request.chapters.len(),
        uniform(sources),
        offset(durations(sources), failed) <= u64::MAX,
    ensures
        run(
            EngineView::initial(request),
            lead_in(request, fetched, sources, failed) + seq![Event::SourceFailed(error)] + rest,
        ).phase == Phase::Aborted(
            Abort {
                failure: error.spec_failure(),
                close_source: false,
                discard_output: failed > 0,
            },
        ),
        run(
            EngineView::initial(request),
            lead_in(request, fetched, sources, failed) + seq![Event::SourceFailed(error)] + rest,
        ).status() == Some(error.spec_failure().spec_code()),
        error.spec_failure().spec_code() != STATUS_OK,
{
    let head = lead_in(request, fetched, sources, failed);
    let before = after_chapters(request, fetched && request.wants_artwork(), sources, failed);
    lemma_lead_in(request, fetched, sources, failed);
    assert(before.next(Event::SourceFailed(error)) == before.aborted(error.spec_failure(), false));
    lemma_aborts(EngineView::initial(request), head, before, Event::SourceFailed(error), rest);
}

/// A book of which a later chapter has other parameters than the first is
/// not produced, whatever is reported afterwards: the run ends with the
/// status of a codec mismatch and asks for the source to be closed and the
/// output to be removed.
pub proof fn lemma_mismatched_chapter_aborts(
    request: BookView,
    fetched: bool,
    sources: Seq<Source>,
    failed: int,
    params: CodecParams,
    rest: Seq<Event>,
)
    requires
        0 < failed < sources.len() == request.chapters.len(),
        uniform(sources),
        offset(durations(sources), failed) <= u64::MAX,
        !sources[0].params.spec_compatible(params),
    ensures
        run(
            EngineView::initial(request),
            lead_in(request, fetched, sources, failed) + seq![Event::Opened(params)] + rest,
        ).phase == Phase::Aborted(
            Abort { failure: Failure::CodecMismatch, close_source: true, discard_output: true },
        ),
        run(
            EngineView::initial(request),
            lead_in(request, fetched, sources, failed) + seq![Event::Opened(params)] + rest,
        ).status() == Some(Failure::CodecMismatch.spec_code()),
        Failure::CodecMismatch.spec_code() != STATUS_OK,
{
    let head = lead_in(request, fetched, sources, failed);
    let before = after_chapters(request, fetched && request.wants_artwork(), sources, failed);
    lemma_lead_in(request, fetched, sources, failed);
    assert(before.next(Event::Opened(params)) == before.aborted(Failure::CodecMismatch, true));
    lemma_aborts(EngineView::initial(request), head, before, Event::Opened(params), rest);
}

/// A book of which one chapter breaks off while it is read is not produced,
/// whatever is reported afterwards and however many of its packets were
/// already written: the run ends with that failure's status and asks for the
/// source to be closed and the output to be removed.
pub proof fn lemma_broken_chapter_aborts(
    request: BookView,
    fetched: bool,
    sources: Seq<Source>,
    failed: int,
    index: int,
    error: SourceError,
    rest: Seq<Event>,
)
    requires
        0 <= failed < sources.len() == request.chapters.len(),
        0 <= index <= sources[failed].packets.len(),
        uniform(sources),
        offset(durations(sources), failed + 1) <= u64::MAX,
    ensures
        run(
            EngineView::initial(request),
            partway(request, fetched, sources, failed, index) + seq![Event::SourceFailed(error)]
                + rest,
        ).phase == Phase::Aborted(
            Abort { failure: error.spec_failure(), close_source: true, discard_output: true },
        ),
        run(
            EngineView::initial(request),
            partway(request, fetched, sources, failed, index) + seq![Event::SourceFailed(error)]
                + rest,
        ).status() == Some(error.spec_failure().spec_code()),
        error.spec_failure().spec_code() != STATUS_OK,
{
    let head = partway(request, fetched, sources, failed, index);
    let streamed = within_chapter(
        request,
        fetched && request.wants_artwork(),
        sources,
        failed,
        index,
    );
    lemma_partway(request, fetched, sources, failed, index);
    assert(streamed.next(Event::SourceFailed(error)) == streamed.aborted(
        error.spec_failure(),
        true,
    ));
    lemma_aborts(EngineView::initial(request), head, streamed, Event::SourceFailed(error), rest);
}

} // verus!
