//! The engine that a driver steps through one book.

use vstd::prelude::*;
use crate::codec::CodecParams;
use crate::model::{lemma_initial_wf, lemma_next_wf, Abort, Action, EngineView, Event, Phase};
use crate::request::BookRequest;
use crate::run::run;
use crate::status::{status_of, Failure};
use crate::timeline::{spec_entries, ChapterEntry, Timeline};

verus! {

/// The state of one run. It is made for one request, stepped until it names
/// a final action, and then dropped: nothing of it is used again.
pub struct Engine {
    request: BookRequest,
    phase: Phase,
    chapter: usize,
    declared: Option<CodecParams>,
    picture: bool,
    timeline: Timeline,
}

impl View for Engine {
    type V = EngineView;

    closed spec fn view(&self) -> EngineView {
        EngineView {
            request: self.request@,
            phase: self.phase,
            chapter: self.chapter as nat,
            declared: self.declared,
            picture: self.picture,
            timeline: self.timeline@,
        }
    }
}

impl Engine {
    /// Starts a run of `request`, which the engine keeps for itself.
    pub fn new(request: BookRequest) -> (engine: Engine)
        ensures
            engine@ == EngineView::initial(request@),
            engine@.wf(),
    {
        let count: usize = request.chapters().len();
        let phase = if count == 0 {
            Phase::Aborted(
                Abort {
                    failure: Failure::OutputWriteFailure,
                    close_source: false,
                    discard_output: false,
                },
            )
        } else if request.artwork_url().is_some() {
            Phase::Idle
        } else {
            Phase::Opening
        };
        proof {
            lemma_initial_wf(request@);
        }
        Engine {
            request,
            phase,
            chapter: 0,
            declared: None,
            picture: false,
            timeline: Timeline::new(),
        }
    }

    /// Puts the run into a failed state.
    fn fail(&mut self, failure: Failure, close_source: bool)
        ensures
            final(self)@ == old(self)@.aborted(failure, close_source),
    {
        self.phase = Phase::Aborted(
            Abort { failure, close_source, discard_output: self.declared.is_some() },
        );
    }

    /// Takes in what came of the pending action and names the next one. An
    /// event that does not answer the pending action changes nothing, and the
    /// same action is named again.
    pub fn step(&mut self, event: Event) -> (action: Action)
        requires
            old(self)@.wf(),
        ensures
            final(self)@ == old(self)@.next(event),
            final(self)@.wf(),
            action == final(self)@.pending(),
    {
        proof {
            lemma_next_wf(self@, event);
        }
        match self.phase {
            Phase::Idle => match event {
                Event::ArtworkFetched => {
                    self.picture = true;
                    self.phase = Phase::Opening;
                },
                Event::ArtworkMissing => {
                    self.phase = Phase::Opening;
                },
                _ => {},
            },
            Phase::Opening => match event {
                Event::Opened(params) => match self.declared {
                    None => {
                        self.declared = Some(params);
                        self.phase = Phase::Layout;
                    },
                    Some(declared) => {
                        if declared.compatible(&params) {
                            self.phase = Phase::Streaming;
                        } else {
                            self.fail(Failure::CodecMismatch, true);
                        }
                    },
                },
                Event::SourceFailed(error) => {
                    self.fail(error.failure(), false);
                },
                _ => {},
            },
            Phase::Layout => match event {
                Event::OutputReady => {
                    self.phase = Phase::Streaming;
                },
                Event::OutputFailed => {
                    self.fail(Failure::OutputWriteFailure, true);
                },
                _ => {},
            },
            Phase::Streaming => match event {
                Event::Packet(packet) => match self.timeline.place(packet) {
                    Some(placed) => {
                        self.phase = Phase::Forwarding(placed);
                    },
                    None => {
                        self.fail(Failure::OutputWriteFailure, true);
                    },
                },
                Event::EndOfStream => {
                    let title = self.request.chapters()[self.chapter].title.clone();
                    self.timeline.close_chapter(title);
                    self.phase = Phase::Closed;
                },
                Event::SourceFailed(error) => {
                    self.fail(error.failure(), true);
                },
                _ => {},
            },
            Phase::Forwarding(_) => match event {
                Event::Written => {
                    self.phase = Phase::Streaming;
                },
                Event::OutputFailed => {
                    self.fail(Failure::OutputWriteFailure, true);
                },
                _ => {},
            },
            Phase::Closed => match event {
                Event::SourceClosed => {
                    self.chapter = self.chapter + 1;
                    self.phase = if self.chapter < self.request.chapters().len() {
                        Phase::Opening
                    } else {
                        Phase::Finalizing
                    };
                },
                _ => {},
            },
            Phase::Finalizing => match event {
                Event::Finalized => {
                    self.phase = Phase::Done;
                },
                Event::OutputFailed => {
                    self.fail(Failure::OutputWriteFailure, false);
                },
                _ => {},
            },
            Phase::Done => {},
            Phase::Aborted(_) => {},
        }
        self.pending()
    }

    /// Takes in a sequence of events, in order, and names the action that is
    /// pending after the last of them.
    pub fn replay(&mut self, events: &Vec<Event>) -> (action: Action)
        requires
            old(self)@.wf(),
        ensures
            final(self)@ == run(old(self)@, events@),
            final(self)@.wf(),
            action == final(self)@.pending(),
    {
        let mut done: usize = 0;
        while done < events.len()
            invariant
                0 <= done <= events@.len(),
                self@.wf(),
                self@ == run(old(self)@, events@.take(done as int)),
            decreases events@.len() - done,
        {
            proof {
                let taken = events@.take(done + 1);
                assert(taken.drop_last() =~= events@.take(done as int));
                assert(taken.last() == events@[done as int]);
            }
            self.step(events[done]);
            done = done + 1;
        }
        proof {
            assert(events@.take(done as int) =~= events@);
        }
        self.pending()
    }

    /// The action that the engine waits to have done.
    pub fn pending(&self) -> (action: Action)
        requires
            self@.wf(),
        ensures
            action == self@.pending(),
    {
        match self.phase {
            Phase::Idle => Action::FetchArtwork,
            Phase::Opening => Action::OpenSource(self.chapter),
            Phase::Layout => Action::DeclareOutput {
                params: self.declared.unwrap(),
                picture: self.picture,
            },
            Phase::Streaming => Action::ReadPacket,
            Phase::Forwarding(packet) => Action::WritePacket(packet),
            Phase::Closed => Action::CloseSource,
            Phase::Finalizing => Action::Finalize,
            Phase::Done => Action::Succeed,
            Phase::Aborted(abort) => Action::Abort(abort),
        }
    }

    /// Where the run stands.
    pub fn phase(&self) -> (phase: Phase)
        ensures
            phase == self@.phase,
    {
        self.phase
    }

    /// How the run ended, once it is over.
    pub fn outcome(&self) -> (outcome: Option<Result<(), Failure>>)
        ensures
            outcome == self@.outcome(),
    {
        match self.phase {
            Phase::Done => Some(Ok(())),
            Phase::Aborted(abort) => Some(Err(abort.failure)),
            _ => None,
        }
    }

    /// The status that the call returns, once the run is over.
    pub fn status(&self) -> (status: Option<i32>)
        ensures
            status == self@.status(),
    {
        match self.outcome() {
            Some(outcome) => Some(status_of(outcome)),
            None => None,
        }
    }

    /// The request being served.
    pub fn request(&self) -> (request: &BookRequest)
        ensures
            request@ == self@.request,
    {
        &self.request
    }

    /// The chapter table as it stands: one entry per exhausted chapter.
    pub fn chapters(&self) -> (table: &Vec<ChapterEntry>)
        ensures
            spec_entries(table@) == self@.timeline.table,
    {
        self.timeline.chapters()
    }

    /// The duration of the chapters exhausted so far.
    pub fn total(&self) -> (total: u64)
        ensures
            total == self@.timeline.total,
    {
        self.timeline.total()
    }
}

} // verus!
