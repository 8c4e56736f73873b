//! The running clock of a book and the chapter table that grows along it.
//!
//! All times are ticks of the audio stream's time base. Every chapter of a book
//! has the parameters of the one declared stream, so a tick means the same in
//! each of them.

use vstd::prelude::*;

verus! {

/// The timing of one packet: where it starts and how long it lasts.
#[derive(Clone, Copy, Debug, PartialEq, Eq, Structural)]
pub struct Packet {
    /// Presentation time.
    pub pts: u64,
    /// Duration.
    pub duration: u64,
}

impl Packet {
    /// The time at which the packet ends.
    pub open spec fn end(self) -> int {
        self.pts + self.duration
    }

    /// The packet moved `by` ticks later.
    pub open spec fn shifted(self, by: nat) -> Packet
        recommends
            by + self.end() <= u64::MAX,
    {
        Packet { pts: (self.pts + by) as u64, duration: self.duration }
    }
}

/// One entry of the chapter table: a title and the range of time it names.
#[derive(Clone, Debug, PartialEq, Eq)]
pub struct ChapterEntry {
    /// The chapter's title, as the request gave it.
    pub title: String,
    /// Where the chapter starts on the book's timeline.
    pub start: u64,
    /// Where the chapter ends on the book's timeline.
    pub end: u64,
}

/// A chapter entry as a mathematical value.
pub struct ChapterView {
    pub title: Seq<char>,
    pub start: nat,
    pub end: nat,
}

impl View for ChapterEntry {
    type V = ChapterView;

    open spec fn view(&self) -> ChapterView {
        ChapterView { title: self.title@, start: self.start as nat, end: self.end as nat }
    }
}

/// The measured duration of a chapter: the furthest point that any of its
/// packets reaches. Zero for a chapter without packets.
pub open spec fn measured(packets: Seq<Packet>) -> nat
    decreases packets.len(),
{
    if packets.len() == 0 {
        0
    } else if measured(packets.drop_last()) >= packets.last().end() {
        measured(packets.drop_last())
    } else {
        packets.last().end() as nat
    }
}

/// The sum of the first `count` durations: where chapter `count` starts.
pub open spec fn offset(durations: Seq<nat>, count: int) -> nat
    recommends
        0 <= count <= durations.len(),
    decreases count,
{
    if count <= 0 {
        0
    } else {
        offset(durations, count - 1) + durations[count - 1]
    }
}

/// The chapter table of a book whose chapters have the given titles and
/// durations: each chapter starts where the one before it ends, the first at zero.
pub open spec fn chapter_table(titles: Seq<Seq<char>>, durations: Seq<nat>) -> Seq<ChapterView>
    recommends
        titles.len() == durations.len(),
{
    Seq::new(
        titles.len(),
        |i: int|
            ChapterView {
                title: titles[i],
                start: offset(durations, i),
                end: offset(durations, i + 1),
            },
    )
}

/// The titles of a table, in order.
pub open spec fn titles_of(table: Seq<ChapterView>) -> Seq<Seq<char>> {
    Seq::new(table.len(), |i: int| table[i].title)
}

/// The duration of each entry of a table, in order.
pub open spec fn durations_of(table: Seq<ChapterView>) -> Seq<nat> {
    Seq::new(table.len(), |i: int| (table[i].end - table[i].start) as nat)
}

/// A timeline as a mathematical value.
pub struct TimelineView {
    /// The running total: the duration of all closed chapters.
    pub total: nat,
    /// How far the packets of the chapter at work reach, from its start.
    pub span: nat,
    /// The entries of the closed chapters.
    pub table: Seq<ChapterView>,
}

impl TimelineView {
    /// The timeline of a book of which nothing has been read.
    pub open spec fn empty() -> TimelineView {
        TimelineView { total: 0, span: 0, table: Seq::empty() }
    }

    /// The table is contiguous from zero, no entry ends before it starts, the
    /// running total is where the last entry ends, and the chapter at work
    /// still fits the clock.
    pub open spec fn wf(self) -> bool {
        &&& self.total + self.span <= u64::MAX
        &&& forall|i: int|
            0 <= i < self.table.len() ==> (#[trigger] self.table[i]).start <= self.table[i].end
        &&& forall|i: int|
            0 <= i < self.table.len() ==> (#[trigger] self.table[i]).start == (if i == 0 {
                0
            } else {
                self.table[i - 1].end
            })
        &&& self.total == (if self.table.len() == 0 {
            0
        } else {
            self.table.last().end
        })
    }

    /// A packet can be placed on the timeline: moved behind the closed
    /// chapters, it still ends within the clock's range.
    pub open spec fn fits(self, packet: Packet) -> bool {
        self.total + packet.end() <= u64::MAX
    }

    /// The timeline after a packet of the chapter at work was placed on it.
    pub open spec fn with_packet(self, packet: Packet) -> TimelineView {
        TimelineView {
            span: if self.span >= packet.end() {
                self.span
            } else {
                packet.end() as nat
            },
            ..self
        }
    }

    /// The timeline after the chapter at work was closed under `title`.
    pub open spec fn with_chapter(self, title: Seq<char>) -> TimelineView {
        TimelineView {
            total: self.total + self.span,
            span: 0,
            table: self.table.push(
                ChapterView { title, start: self.total, end: self.total + self.span },
            ),
        }
    }

    /// The timeline after the packets of one chapter were placed on it in order.
    pub open spec fn with_packets(self, packets: Seq<Packet>) -> TimelineView
        decreases packets.len(),
    {
        if packets.len() == 0 {
            self
        } else {
            self.with_packets(packets.drop_last()).with_packet(packets.last())
        }
    }
}

/// The clock of one book: the running total, the reach of the chapter at
/// work, and the entries of the chapters closed so far.
pub struct Timeline {
    total: u64,
    span: u64,
    table: Vec<ChapterEntry>,
}

impl View for Timeline {
    type V = TimelineView;

    closed spec fn view(&self) -> TimelineView {
        TimelineView {
            total: self.total as nat,
            span: self.span as nat,
            table: spec_entries(self.table@),
        }
    }
}

/// The entries of a list as mathematical values.
pub open spec fn spec_entries(entries: Seq<ChapterEntry>) -> Seq<ChapterView> {
    Seq::new(entries.len(), |i: int| entries[i]@)
}

impl Timeline {
    /// A timeline at zero with an empty table.
    pub fn new() -> (timeline: Timeline)
        ensures
            timeline@ == TimelineView::empty(),
            timeline@.wf(),
    {
        let timeline = Timeline { total: 0, span: 0, table: Vec::new() };
        assert(timeline@.table =~= Seq::empty());
        timeline
    }

    /// The running total.
    pub fn total(&self) -> (total: u64)
        ensures
            total == self@.total,
    {
        self.total
    }

    /// How far the chapter at work reaches so far.
    pub fn span(&self) -> (span: u64)
        ensures
            span == self@.span,
    {
        self.span
    }

    /// The entries of the chapters closed so far, in order.
    pub fn chapters(&self) -> (table: &Vec<ChapterEntry>)
        ensures
            spec_entries(table@) == self@.table,
    {
        &self.table
    }

    /// Places a packet of the chapter at work on the timeline. Returns the
    /// packet moved behind the closed chapters, and remembers how far the
    /// chapter reaches. Returns `None`, and changes nothing, when the moved
    /// packet would end beyond the clock's range.
    pub fn place(&mut self, packet: Packet) -> (placed: Option<Packet>)
        requires
            old(self)@.wf(),
        ensures
            old(self)@.fits(packet) ==> placed == Some(packet.shifted(old(self)@.total))
                && final(self)@ == old(self)@.with_packet(packet),
            !old(self)@.fits(packet) ==> placed.is_none() && final(self)@ == old(self)@,
            final(self)@.wf(),
    {
        let reach: u64 = match packet.pts.checked_add(packet.duration) {
            Some(reach) => reach,
            None => { return None; },
        };
        if reach > u64::MAX - self.total {
            return None;
        }
        if reach > self.span {
            self.span = reach;
        }
        Some(Packet { pts: packet.pts + self.total, duration: packet.duration })
    }

    /// Closes the chapter at work: appends its entry, from the running total
    /// to the running total plus the chapter's reach, and advances the total.
    pub fn close_chapter(&mut self, title: String)
        requires
            old(self)@.wf(),
        ensures
            final(self)@ == old(self)@.with_chapter(title@),
            final(self)@.wf(),
    {
        let start: u64 = self.total;
        let end: u64 = self.total + self.span;
        self.table.push(ChapterEntry { title, start, end });
        self.total = end;
        self.span = 0;
        assert(self@.table =~= old(self)@.with_chapter(title@).table);
    }
}

/// No packet of a chapter ends behind the chapter's measured duration.
pub proof fn lemma_measured_bounds(packets: Seq<Packet>, i: int)
    requires
        0 <= i < packets.len(),
    ensures
        packets[i].end() <= measured(packets),
    decreases packets.len(),
{
    if i < packets.len() - 1 {
        lemma_measured_bounds(packets.drop_last(), i);
    }
}

/// The measured duration is the least bound on where the packets end: what
/// bounds every packet bounds the chapter.
pub proof fn lemma_measured_least(packets: Seq<Packet>, bound: nat)
    requires
        forall|i: int| 0 <= i < packets.len() ==> (#[trigger] packets[i]).end() <= bound,
    ensures
        measured(packets) <= bound,
    decreases packets.len(),
{
    if packets.len() > 0 {
        let front = packets.drop_last();
        assert forall|i: int| 0 <= i < front.len() implies (#[trigger] front[i]).end()
            <= bound by {
            assert(front[i] == packets[i]);
        }
        lemma_measured_least(front, bound);
        assert(packets.last() == packets[packets.len() - 1]);
    }
}

/// The measured duration of a chapter without packets is zero; one more
/// packet can only lengthen a chapter, to where that packet ends.
pub proof fn lemma_measured_push(packets: Seq<Packet>, packet: Packet)
    ensures
        measured(Seq::<Packet>::empty()) == 0,
        measured(packets.push(packet)) == (if measured(packets) >= packet.end() {
            measured(packets)
        } else {
            packet.end() as nat
        }),
    decreases packets.len(),
{
    assert(packets.push(packet).drop_last() =~= packets);
    if packets.len() > 0 {
        lemma_measured_push(packets.drop_last(), packets.last());
        assert(packets.drop_last().push(packets.last()) =~= packets);
    }
}

/// Where the packets of a chapter arrive in time order, the chapter lasts
/// until its last packet ends.
pub proof fn lemma_measured_in_order(packets: Seq<Packet>)
    requires
        packets.len() > 0,
        forall|i: int, j: int|
            0 <= i <= j < packets.len() ==> (#[trigger] packets[i]).end() <= (
            #[trigger] packets[j]).end(),
    ensures
        measured(packets) == packets.last().end(),
    decreases packets.len(),
{
    let front = packets.drop_last();
    if front.len() > 0 {
        assert forall|i: int, j: int| 0 <= i <= j < front.len() implies (#[trigger] front[i]).end()
            <= (#[trigger] front[j]).end() by {
            assert(front[i] == packets[i]);
            assert(front[j] == packets[j]);
        }
        lemma_measured_in_order(front);
        assert(front.last() == packets[packets.len() - 2]);
        assert(packets[packets.len() - 2].end() <= packets[packets.len() - 1].end());
    } else {
        assert(measured(front) == 0);
    }
}

/// Placing the packets of a chapter moves neither the running total nor the
/// table; the chapter then reaches as far as the furthest of them.
pub proof fn lemma_with_packets(timeline: TimelineView, packets: Seq<Packet>)
    ensures
        timeline.with_packets(packets).total == timeline.total,
        timeline.with_packets(packets).table == timeline.table,
        timeline.with_packets(packets).span == (if timeline.span >= measured(packets) {
            timeline.span
        } else {
            measured(packets)
        }),
    decreases packets.len(),
{
    if packets.len() > 0 {
        lemma_with_packets(timeline, packets.drop_last());
        lemma_measured_push(packets.drop_last(), packets.last());
        assert(packets.drop_last().push(packets.last()) =~= packets);
    }
}

/// The start of chapter `count` does not come before that of an earlier one.
pub proof fn lemma_offset_monotone(durations: Seq<nat>, earlier: int, count: int)
    requires
        0 <= earlier <= count,
    ensures
        offset(durations, earlier) <= offset(durations, count),
    decreases count - earlier,
{
    if earlier < count {
        lemma_offset_monotone(durations, earlier, count - 1);
    }
}

/// The table of a book has one entry per title, under that title; it starts
/// at zero; each entry lasts as long as its chapter and ends where the next
/// starts; and the last one ends at the sum of all durations.
pub proof fn lemma_chapter_table_shape(titles: Seq<Seq<char>>, durations: Seq<nat>)
    requires
        titles.len() == durations.len(),
    ensures
        chapter_table(titles, durations).len() == titles.len(),
        titles_of(chapter_table(titles, durations)) == titles,
        durations_of(chapter_table(titles, durations)) == durations,
        forall|i: int|
            0 <= i < titles.len() ==> (#[trigger] chapter_table(titles, durations)[i]).end
                == chapter_table(titles, durations)[i].start + durations[i],
        forall|i: int|
            0 <= i < titles.len() - 1 ==> (#[trigger] chapter_table(titles, durations)[i]).end
                == chapter_table(titles, durations)[i + 1].start,
        titles.len() > 0 ==> chapter_table(titles, durations)[0].start == 0,
        titles.len() > 0 ==> chapter_table(titles, durations).last().end == offset(
            durations,
            durations.len() as int,
        ),
{
    let table = chapter_table(titles, durations);
    assert(titles_of(table) =~= titles);
    assert(durations_of(table) =~= durations);
}

/// Of two entries of a book's table the later one starts no earlier than the
/// first ends; where the first has a positive duration, the later one starts
/// strictly later than the first starts.
pub proof fn lemma_chapter_table_increases(
    titles: Seq<Seq<char>>,
    durations: Seq<nat>,
    i: int,
    j: int,
)
    requires
        titles.len() == durations.len(),
        0 <= i < j < titles.len(),
    ensures
        chapter_table(titles, durations)[i].end <= chapter_table(titles, durations)[j].start,
        chapter_table(titles, durations)[i].start <= chapter_table(titles, durations)[j].start,
        durations[i] > 0 ==> chapter_table(titles, durations)[i].start < chapter_table(
            titles,
            durations,
        )[j].start,
{
    lemma_offset_monotone(durations, i + 1, j);
}

/// A well-formed timeline holds the table of a book: that of its own titles
/// and durations. Its running total is the sum of those durations.
pub proof fn lemma_timeline_table(timeline: TimelineView)
    requires
        timeline.wf(),
    ensures
        timeline.table == chapter_table(titles_of(timeline.table), durations_of(timeline.table)),
        timeline.total == offset(durations_of(timeline.table), timeline.table.len() as int),
{
    let table = timeline.table;
    let durations = durations_of(table);
    lemma_table_offsets(timeline, table.len() as int);
    assert forall|i: int| 0 <= i < table.len() implies table[i] == chapter_table(
        titles_of(table),
        durations,
    )[i] by {
        lemma_table_offsets(timeline, i);
        lemma_table_offsets(timeline, i + 1);
    }
    assert(table =~= chapter_table(titles_of(table), durations));
}

/// In a well-formed timeline the first `count` durations add up to where
/// entry `count` starts, or to the running total after the last entry.
proof fn lemma_table_offsets(timeline: TimelineView, count: int)
    requires
        timeline.wf(),
        0 <= count <= timeline.table.len(),
    ensures
        offset(durations_of(timeline.table), count) == (if count == 0 {
            0
        } else {
            timeline.table[count - 1].end
        }),
        count < timeline.table.len() ==> offset(durations_of(timeline.table), count)
            == timeline.table[count].start,
    decreases count,
{
    if count > 0 {
        lemma_table_offsets(timeline, count - 1);
        let entry = timeline.table[count - 1];
        assert(entry.start <= entry.end);
    }
    if count < timeline.table.len() {
        let entry = timeline.table[count];
        assert(entry.start <= entry.end);
    }
}

/// Placing packets and closing chapters keeps a timeline well formed, as long
/// as each packet fits.
pub proof fn lemma_timeline_steps(timeline: TimelineView, packet: Packet, title: Seq<char>)
    requires
        timeline.wf(),
    ensures
        TimelineView::empty().wf(),
        timeline.fits(packet) ==> timeline.with_packet(packet).wf(),
        timeline.with_chapter(title).wf(),
{
    let closed = timeline.with_chapter(title);
    assert forall|i: int| 0 <= i < closed.table.len() implies (#[trigger] closed.table[i]).start
        <= closed.table[i].end by {
        if i < timeline.table.len() {
            assert(closed.table[i] == timeline.table[i]);
        }
    }
    assert forall|i: int| 0 <= i < closed.table.len() implies (#[trigger] closed.table[i]).start
        == (if i == 0 {
        0
    } else {
        closed.table[i - 1].end
    }) by {
        if i < timeline.table.len() {
            assert(closed.table[i] == timeline.table[i]);
        }
        if i > 0 {
            assert(closed.table[i - 1] == timeline.table[i - 1]);
        }
    }
}

} // verus!
