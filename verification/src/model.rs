//! The run of one book as a state machine: what the engine knows, what it
//! waits for, and how each report from outside moves it on.
//!
//! The engine itself touches neither network nor disk. It names the next
//! thing to do (an [`Action`]); whoever drives it does that and reports what
//! came of it (an [`Event`]). Chapters are handled strictly one after the
//! other: the start of a chapter on the book's timeline is known only when
//! the chapter before it has been read to its end.

use vstd::prelude::*;
use crate::codec::CodecParams;
use crate::request::BookView;
use crate::status::{spec_status_of, Failure, SourceError};
use crate::timeline::{lemma_timeline_steps, Packet, TimelineView};

verus! {

/// How a run that failed leaves what it held.
#[derive(Clone, Copy, Debug, PartialEq, Eq, Structural)]
pub struct Abort {
    /// Why the run failed.
    pub failure: Failure,
    /// A chapter's source is open and has to be closed.
    pub close_source: bool,
    /// The output was begun under its temporary name and has to be removed.
    pub discard_output: bool,
}

/// Where a run stands.
#[derive(Clone, Copy, Debug, PartialEq, Eq, Structural)]
pub enum Phase {
    /// Nothing is open yet; the cover art is being fetched.
    Idle,
    /// The source of the chapter at work is being opened.
    Opening,
    /// The first chapter is open; the output is being created and its
    /// streams declared.
    Layout,
    /// The next packet of the chapter at work is being read.
    Streaming,
    /// This packet, already moved onto the book's timeline, is being written.
    Forwarding(Packet),
    /// The chapter at work is exhausted and entered in the table; its source
    /// is being closed.
    Closed,
    /// Every chapter is written; the output is being finalized and moved
    /// into place.
    Finalizing,
    /// The book stands complete under the requested name.
    Done,
    /// The run failed; no book was produced.
    Aborted(Abort),
}

/// What the engine asks to have done next.
#[derive(Clone, Copy, Debug, PartialEq, Eq, Structural)]
pub enum Action {
    /// Fetch the cover art from the request's address.
    FetchArtwork,
    /// Open the source of the chapter at this index and probe its audio stream.
    OpenSource(usize),
    /// Create the output under a temporary name, declare one audio stream
    /// with these parameters and, where `picture` is set, an attached-picture
    /// stream holding the cover art as its single packet; write the header.
    DeclareOutput { params: CodecParams, picture: bool },
    /// Read the next packet of the open source.
    ReadPacket,
    /// Write the packet just read to the audio stream, with this timing.
    WritePacket(Packet),
    /// Close the open source.
    CloseSource,
    /// Write the chapter table and the trailer, then move the output to the
    /// requested name.
    Finalize,
    /// Report success. Nothing is left to do.
    Succeed,
    /// Release what the run held, as told, and report the failure. Nothing
    /// else is left to do.
    Abort(Abort),
}

/// What came of an action.
#[derive(Clone, Copy, Debug, PartialEq, Eq, Structural)]
pub enum Event {
    /// The cover art was fetched.
    ArtworkFetched,
    /// The cover art could not be fetched.
    ArtworkMissing,
    /// The source is open; its audio stream has these parameters.
    Opened(CodecParams),
    /// Opening the source, or reading from it, failed.
    SourceFailed(SourceError),
    /// The output is created and its header written.
    OutputReady,
    /// A packet was read; this is its timing within its chapter.
    Packet(Packet),
    /// The source has no more packets.
    EndOfStream,
    /// The packet was written.
    Written,
    /// The source is closed.
    SourceClosed,
    /// The output is finalized and stands under the requested name.
    Finalized,
    /// Creating, writing or finalizing the output failed.
    OutputFailed,
}

/// The state of a run as a mathematical value.
pub struct EngineView {
    /// The request being served.
    pub request: BookView,
    /// Where the run stands.
    pub phase: Phase,
    /// The index of the chapter at work: as many chapters are behind it.
    pub chapter: nat,
    /// The parameters of the declared audio stream, once the first chapter is open.
    pub declared: Option<CodecParams>,
    /// The cover art is in hand.
    pub picture: bool,
    /// The running clock and the chapter table.
    pub timeline: TimelineView,
}

impl EngineView {
    /// The state in which a run of `request` starts. A request without
    /// chapters fails at once: there is no chapter to take the audio stream's
    /// parameters from, so no output can be declared.
    pub open spec fn initial(request: BookView) -> EngineView {
        EngineView {
            request,
            phase: if request.chapters.len() == 0 {
                Phase::Aborted(
                    Abort {
                        failure: Failure::OutputWriteFailure,
                        close_source: false,
                        discard_output: false,
                    },
                )
            } else if request.wants_artwork() {
                Phase::Idle
            } else {
                Phase::Opening
            },
            chapter: 0,
            declared: None,
            picture: false,
            timeline: TimelineView::empty(),
        }
    }

    /// The run is over, one way or the other.
    pub open spec fn is_final(self) -> bool {
        self.phase is Done || self.phase is Aborted
    }

    /// A chapter's source is open.
    pub open spec fn source_open(self) -> bool {
        self.phase is Layout || self.phase is Streaming || self.phase is Forwarding
            || self.phase is Closed
    }

    /// The output has been begun under its temporary name.
    pub open spec fn output_begun(self) -> bool {
        self.declared is Some
    }

    /// This state, failed: the run stops and says what is to be released.
    pub open spec fn aborted(self, failure: Failure, close_source: bool) -> EngineView {
        EngineView {
            phase: Phase::Aborted(
                Abort { failure, close_source, discard_output: self.output_begun() },
            ),
            ..self
        }
    }

    /// This state in another phase.
    pub open spec fn moved(self, phase: Phase) -> EngineView {
        EngineView { phase, ..self }
    }

    /// The state after `event`. An event that does not answer the pending
    /// action changes nothing.
    pub open spec fn next(self, event: Event) -> EngineView {
        match self.phase {
            Phase::Idle => match event {
                Event::ArtworkFetched => EngineView {
                    picture: true,
                    phase: Phase::Opening,
                    ..self
                },
                Event::ArtworkMissing => self.moved(Phase::Opening),
                _ => self,
            },
            Phase::Opening => match event {
                Event::Opened(params) => match self.declared {
                    None => EngineView {
                        declared: Some(params),
                        phase: Phase::Layout,
                        ..self
                    },
                    Some(declared) => if declared.spec_compatible(params) {
                        self.moved(Phase::Streaming)
                    } else {
                        self.aborted(Failure::CodecMismatch, true)
                    },
                },
                Event::SourceFailed(error) => self.aborted(error.spec_failure(), false),
                _ => self,
            },
            Phase::Layout => match event {
                Event::OutputReady => self.moved(Phase::Streaming),
                Event::OutputFailed => self.aborted(Failure::OutputWriteFailure, true),
                _ => self,
            },
            Phase::Streaming => match event {
                Event::Packet(packet) => if self.timeline.fits(packet) {
                    EngineView {
                        timeline: self.timeline.with_packet(packet),
                        phase: Phase::Forwarding(packet.shifted(self.timeline.total)),
                        ..self
                    }
                } else {
                    self.aborted(Failure::OutputWriteFailure, true)
                },
                Event::EndOfStream => EngineView {
                    timeline: self.timeline.with_chapter(
                        self.request.chapters[self.chapter as int].title,
                    ),
                    phase: Phase::Closed,
                    ..self
                },
                Event::SourceFailed(error) => self.aborted(error.spec_failure(), true),
                _ => self,
            },
            Phase::Forwarding(_) => match event {
                Event::Written => self.moved(Phase::Streaming),
                Event::OutputFailed => self.aborted(Failure::OutputWriteFailure, true),
                _ => self,
            },
            Phase::Closed => match event {
                Event::SourceClosed => EngineView {
                    chapter: self.chapter + 1,
                    phase: if self.chapter + 1 < self.request.chapters.len() {
                        Phase::Opening
                    } else {
                        Phase::Finalizing
                    },
                    ..self
                },
                _ => self,
            },
            Phase::Finalizing => match event {
                Event::Finalized => self.moved(Phase::Done),
                Event::OutputFailed => self.aborted(Failure::OutputWriteFailure, false),
                _ => self,
            },
            Phase::Done => self,
            Phase::Aborted(_) => self,
        }
    }

    /// What the engine waits to have done in this state.
    pub open spec fn pending(self) -> Action {
        match self.phase {
            Phase::Idle => Action::FetchArtwork,
            Phase::Opening => Action::OpenSource(self.chapter as usize),
            Phase::Layout => Action::DeclareOutput {
                params: self.declared.unwrap(),
                picture: self.picture,
            },
            Phase::Streaming => Action::ReadPacket,
            Phase::Forwarding(packet) => Action::WritePacket(packet),
            Phase::Closed => Action::CloseSource,
            Phase::Finalizing => Action::Finalize,
            Phase::Done => Action::Succeed,
            Phase::Aborted(abort) => Action::Abort(abort),
        }
    }

    /// How the run ended: with the book, or with a failure. None while the
    /// run goes on.
    pub open spec fn outcome(self) -> Option<Result<(), Failure>> {
        match self.phase {
            Phase::Done => Some(Ok(())),
            Phase::Aborted(abort) => Some(Err(abort.failure)),
            _ => None,
        }
    }

    /// The status that the call returns: zero for a book that was produced,
    /// the failure's number for a run that failed, none while the run goes on.
    pub open spec fn status(self) -> Option<i32> {
        match self.outcome() {
            Some(outcome) => Some(spec_status_of(outcome)),
            None => None,
        }
    }

    /// The number of chapters entered in the table in this phase: those
    /// behind the chapter at work, and that chapter too once it is exhausted.
    pub open spec fn entered(self) -> nat {
        if self.phase is Closed {
            self.chapter + 1
        } else {
            self.chapter
        }
    }

    /// What holds of every state that a run can reach.
    pub open spec fn wf(self) -> bool {
        let count = self.request.chapters.len();
        &&& count <= usize::MAX
        &&& self.timeline.wf()
        &&& self.chapter <= count
        &&& self.picture ==> self.request.wants_artwork()
        &&& self.timeline.table.len() == self.entered()
        &&& forall|i: int|
            0 <= i < self.timeline.table.len() ==> (#[trigger] self.timeline.table[i]).title
                == self.request.chapters[i].title
        &&& match self.phase {
            Phase::Idle => {
                &&& count > 0
                &&& self.chapter == 0
                &&& self.declared is None
                &&& self.timeline == TimelineView::empty()
                &&& self.request.wants_artwork()
                &&& !self.picture
            },
            Phase::Opening => {
                &&& self.chapter < count
                &&& self.declared is Some <==> self.chapter > 0
                &&& self.timeline.span == 0
            },
            Phase::Layout => {
                &&& self.chapter == 0 < count
                &&& self.declared is Some
                &&& self.timeline.span == 0
            },
            Phase::Streaming => self.chapter < count && self.declared is Some,
            Phase::Forwarding(packet) => {
                &&& self.chapter < count
                &&& self.declared is Some
                &&& self.timeline.total <= packet.pts
                &&& packet.end() <= self.timeline.total + self.timeline.span
            },
            Phase::Closed => {
                &&& self.chapter < count
                &&& self.declared is Some
                &&& self.timeline.span == 0
            },
            Phase::Finalizing => {
                &&& self.chapter == count > 0
                &&& self.declared is Some
                &&& self.timeline.span == 0
            },
            Phase::Done => {
                &&& self.chapter == count > 0
                &&& self.declared is Some
                &&& self.timeline.span == 0
            },
            Phase::Aborted(abort) => abort.discard_output == self.output_begun(),
        }
    }
}

/// A run starts in a well-formed state.
pub proof fn lemma_initial_wf(request: BookView)
    requires
        request.chapters.len() <= usize::MAX,
    ensures
        EngineView::initial(request).wf(),
{
}

/// No event leads out of the well-formed states.
pub proof fn lemma_next_wf(state: EngineView, event: Event)
    requires
        state.wf(),
    ensures
        state.next(event).wf(),
{
    let after = state.next(event);
    match state.phase {
        Phase::Streaming => {
            match event {
                Event::Packet(packet) => {
                    if state.timeline.fits(packet) {
                        lemma_timeline_steps(state.timeline, packet, Seq::empty());
                    }
                },
                Event::EndOfStream => {
                    let title = state.request.chapters[state.chapter as int].title;
                    lemma_timeline_steps(state.timeline, Packet { pts: 0, duration: 0 }, title);
                    assert forall|i: int| 0 <= i < after.timeline.table.len() implies (
                    #[trigger] after.timeline.table[i]).title
                        == after.request.chapters[i].title by {
                        if i < state.timeline.table.len() {
                            assert(after.timeline.table[i] == state.timeline.table[i]);
                        }
                    }
                },
                _ => {},
            }
        },
        _ => {},
    }
}

} // verus!
