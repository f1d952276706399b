//! The voice pool: a fixed set of static voices and one of streaming voices,
//! the loans that bind an event to a voice, and the queue of each streaming
//! voice.
use vstd::prelude::*;
use crate::SoundEventId;
use crate::device::{DeviceCommand, Voice};

verus! {

/// The token that a caller holds for an event that plays on a voice: the
/// voice's kind and place, and the identity of the assignment.
#[derive(Clone, Copy, Debug, PartialEq, Eq, Structural)]
pub struct SoundSourceLoan {
    pub source_id: usize,
    pub event_id: SoundEventId,
    pub streaming: bool,
}

impl SoundSourceLoan {
    /// The voice that the loan speaks of.
    pub open spec fn voice(self) -> Voice {
        if self.streaming {
            Voice::Streaming(self.source_id)
        } else {
            Voice::Static(self.source_id)
        }
    }

    /// The voice that the loan speaks of.
    pub fn to_voice(&self) -> (r: Voice)
        ensures
            r == self.voice(),
    {
        if self.streaming {
            Voice::Streaming(self.source_id)
        } else {
            Voice::Static(self.source_id)
        }
    }
}

/// What a voice is playing: the identity of the assignment, and whether the
/// sound loops.
#[derive(Clone, Copy, Debug, PartialEq, Eq)]
pub struct SoundBinding {
    pub event_id: SoundEventId,
    pub looping: bool,
}

/// A static voice.
#[derive(Clone, Copy, Debug, PartialEq, Eq)]
pub struct SoundSource {
    pub current_binding: Option<SoundBinding>,
}

/// Where the stream of a streaming voice stands.
#[derive(Clone, Copy, Debug, PartialEq, Eq, Structural)]
pub enum StreamState {
    /// The voice has no stream.
    Closed,
    /// The stream is open and may hold more.
    Open,
    /// The stream has been read to its end.
    Exhausted,
}

/// A streaming voice: its binding, its stream, and the durations (in
/// milliseconds) of the slots that are queued on the device, oldest first.
#[derive(Debug, PartialEq, Eq)]
pub struct StreamingSoundSource {
    pub current_binding: Option<SoundBinding>,
    pub stream: StreamState,
    pub queued: Vec<u64>,
}

/// A streaming voice as contracts see it.
pub struct StreamingVoice {
    pub current_binding: Option<SoundBinding>,
    pub stream: StreamState,
    pub queued: Seq<u64>,
}

/// What happened outside since the last step of a refill.
#[derive(Clone, Copy, Debug, PartialEq, Eq)]
pub enum StreamEvent {
    /// The refill begins; the device has finished this many of the queued slots.
    Begin { processed: usize },
    /// The next chunk was decoded and queued; it lasts this many milliseconds.
    Chunk { duration: u64 },
    /// The stream had no further chunk.
    EndOfStream,
    /// The stream was opened again from its start.
    Reopened,
    /// The decoder failed.
    Failed,
}

/// What the caller is to do next in a refill.
#[derive(Clone, Copy, Debug, PartialEq, Eq, Structural)]
pub enum StreamAction {
    /// Nothing: the refill is over.
    Done,
    /// Decode the next chunk, queue it, and report it.
    Decode,
    /// Open the stream again from its start, and report it.
    Reopen,
    /// Release the voice on the device: it has been unbound.
    Release,
}

/// The sum of the durations in a queue.
pub open spec fn total(queued: Seq<u64>) -> int
    decreases queued.len(),
{
    if queued.len() == 0 {
        0
    } else {
        total(queued.drop_last()) + queued.last()
    }
}

/// Whether a voice with this binding is given back when the device reports
/// it as stopped or not.
pub open spec fn reclaimable(binding: Option<SoundBinding>, stopped: bool) -> bool {
    binding matches Some(b) && !b.looping && stopped
}

/// What the device reported of the voice at place `i`; nothing reported
/// counts as still playing.
pub open spec fn reported(stopped: Seq<bool>, i: int) -> bool {
    0 <= i < stopped.len() && stopped[i]
}

impl StreamingVoice {
    /// The voice with nothing bound, no stream and nothing queued.
    pub open spec fn released() -> StreamingVoice {
        StreamingVoice { current_binding: None, stream: StreamState::Closed, queued: Seq::empty() }
    }

    /// Whether the voice's sound loops.
    pub open spec fn looping(self) -> bool {
        self.current_binding matches Some(b) && b.looping
    }

    /// What a refill does next once the queue is as it is: decode while the
    /// stream is open and less than `target` milliseconds are queued.
    pub open spec fn topped(self, target: u64) -> StreamAction {
        if self.stream == StreamState::Open && total(self.queued) < target {
            StreamAction::Decode
        } else {
            StreamAction::Done
        }
    }

    /// One step of a refill: the voice after `event`, and what to do next.
    pub open spec fn step(self, event: StreamEvent, target: u64) -> (StreamingVoice, StreamAction) {
        match event {
            StreamEvent::Begin { processed } => {
                let gone = if processed <= self.queued.len() {
                    processed as int
                } else {
                    self.queued.len() as int
                };
                let v = StreamingVoice { queued: self.queued.skip(gone), ..self };
                (v, v.topped(target))
            },
            StreamEvent::Chunk { duration } => {
                if self.stream == StreamState::Open {
                    let v = StreamingVoice { queued: self.queued.push(duration), ..self };
                    (v, v.topped(target))
                } else {
                    (self, StreamAction::Done)
                }
            },
            StreamEvent::EndOfStream => {
                if self.stream != StreamState::Open {
                    (self, StreamAction::Done)
                } else if self.looping() {
                    (self, StreamAction::Reopen)
                } else {
                    (StreamingVoice { stream: StreamState::Exhausted, ..self }, StreamAction::Done)
                }
            },
            StreamEvent::Reopened => (self, self.topped(target)),
            StreamEvent::Failed => (StreamingVoice::released(), StreamAction::Release),
        }
    }
}

impl View for StreamingSoundSource {
    type V = StreamingVoice;

    open spec fn view(&self) -> StreamingVoice {
        StreamingVoice {
            current_binding: self.current_binding,
            stream: self.stream,
            queued: self.queued@,
        }
    }
}

/// The pool as contracts see it.
pub struct Pool {
    pub next_event: SoundEventId,
    pub sources: Seq<SoundSource>,
    pub streaming: Seq<StreamingVoice>,
}

impl Pool {
    /// What the voice is bound to; a voice that the pool does not have is
    /// bound to nothing.
    pub open spec fn binding(self, voice: Voice) -> Option<SoundBinding> {
        match voice {
            Voice::Static(i) => if i < self.sources.len() {
                self.sources[i as int].current_binding
            } else {
                None
            },
            Voice::Streaming(i) => if i < self.streaming.len() {
                self.streaming[i as int].current_binding
            } else {
                None
            },
        }
    }

    /// The pool's invariant: no two voices are bound under the same
    /// identity, every identity in use was minted before `next_event`, and
    /// a place in the pool fits a `usize`.
    pub open spec fn wf(self) -> bool {
        &&& self.sources.len() <= usize::MAX
        &&& self.streaming.len() <= usize::MAX
        &&& forall|v: Voice, w: Voice|
            (#[trigger] self.binding(v)) is Some && (#[trigger] self.binding(w)) is Some && v != w
                ==> self.binding(v)->0.event_id != self.binding(w)->0.event_id
        &&& forall|v: Voice|
            (#[trigger] self.binding(v)) is Some ==> self.binding(v)->0.event_id < self.next_event
    }

    /// Whether the loan's voice is still bound under the loan's identity.
    pub open spec fn loan_valid(self, loan: SoundSourceLoan) -> bool {
        self.binding(loan.voice()) matches Some(b) && b.event_id == loan.event_id
    }

    /// The pool with `voice` bound to `binding`, if the pool has that voice.
    pub open spec fn with_binding(self, voice: Voice, binding: Option<SoundBinding>) -> Pool {
        match voice {
            Voice::Static(i) => if i < self.sources.len() {
                Pool {
                    sources: self.sources.update(i as int, SoundSource { current_binding: binding }),
                    ..self
                }
            } else {
                self
            },
            Voice::Streaming(i) => if i < self.streaming.len() {
                Pool {
                    streaming: self.streaming.update(
                        i as int,
                        StreamingVoice { current_binding: binding, ..self.streaming[i as int] },
                    ),
                    ..self
                }
            } else {
                self
            },
        }
    }

    /// The first static voice at or after `from` that is bound to nothing.
    pub open spec fn free_static(self, from: int) -> Option<int>
        decreases self.sources.len() - from,
    {
        if from < 0 || from >= self.sources.len() {
            None
        } else if self.sources[from].current_binding is None {
            Some(from)
        } else {
            self.free_static(from + 1)
        }
    }

    /// The first streaming voice at or after `from` that is bound to nothing.
    pub open spec fn free_streaming(self, from: int) -> Option<int>
        decreases self.streaming.len() - from,
    {
        if from < 0 || from >= self.streaming.len() {
            None
        } else if self.streaming[from].current_binding is None {
            Some(from)
        } else {
            self.free_streaming(from + 1)
        }
    }

    /// The loan that the next request for a voice of this kind gets: the
    /// first free voice by place, under the identity `next_event`. There is
    /// none where every voice is bound, or where the identities have run out.
    pub open spec fn next_loan(self, streaming: bool) -> Option<SoundSourceLoan> {
        let free = if streaming {
            self.free_streaming(0)
        } else {
            self.free_static(0)
        };
        if self.next_event == u64::MAX || free is None {
            None
        } else {
            Some(
                SoundSourceLoan {
                    source_id: free->0 as usize,
                    event_id: self.next_event,
                    streaming,
                },
            )
        }
    }

    /// The pool after a request for a voice of this kind: where there is a
    /// loan, its voice is bound under the new identity, not looping, and
    /// `next_event` is one more.
    pub open spec fn loaned(self, streaming: bool) -> Pool {
        match self.next_loan(streaming) {
            Some(loan) => Pool {
                next_event: (self.next_event + 1) as u64,
                ..self.with_binding(
                    loan.voice(),
                    Some(SoundBinding { event_id: loan.event_id, looping: false }),
                )
            },
            None => self,
        }
    }

    /// The pool after an event is assigned under `loan`: a valid loan's voice
    /// keeps its identity and takes the event's loop flag; a stale loan
    /// changes nothing.
    pub open spec fn assigned(self, loan: SoundSourceLoan, looping: bool) -> Pool {
        if self.loan_valid(loan) {
            self.with_binding(
                loan.voice(),
                Some(SoundBinding { event_id: loan.event_id, looping }),
            )
        } else {
            self
        }
    }

    /// The pool with the stream of streaming voice `i` open and its queue
    /// empty.
    pub open spec fn attached(self, i: int) -> Pool {
        if 0 <= i < self.streaming.len() {
            Pool {
                streaming: self.streaming.update(
                    i,
                    StreamingVoice {
                        stream: StreamState::Open,
                        queued: Seq::empty(),
                        ..self.streaming[i]
                    },
                ),
                ..self
            }
        } else {
            self
        }
    }

    /// The pool after the device's report: each voice that is bound to a
    /// sound that does not loop, and that the device reports as stopped, is
    /// released.
    pub open spec fn checked(self, static_stopped: Seq<bool>, streaming_stopped: Seq<bool>) -> Pool {
        Pool {
            next_event: self.next_event,
            sources: Seq::new(
                self.sources.len(),
                |i: int|
                    if reclaimable(self.sources[i].current_binding, reported(static_stopped, i)) {
                        SoundSource { current_binding: None }
                    } else {
                        self.sources[i]
                    },
            ),
            streaming: Seq::new(
                self.streaming.len(),
                |i: int|
                    if reclaimable(
                        self.streaming[i].current_binding,
                        reported(streaming_stopped, i),
                    ) {
                        StreamingVoice::released()
                    } else {
                        self.streaming[i]
                    },
            ),
        }
    }

    /// The release commands for the first `n` static voices after the
    /// device's report, by place.
    pub open spec fn static_releases(self, stopped: Seq<bool>, n: int) -> Seq<DeviceCommand>
        decreases n,
    {
        if n <= 0 {
            Seq::empty()
        } else if reclaimable(self.binding(Voice::Static((n - 1) as usize)), reported(stopped, n - 1)) {
            self.static_releases(stopped, n - 1).push(
                DeviceCommand::Release(Voice::Static((n - 1) as usize)),
            )
        } else {
            self.static_releases(stopped, n - 1)
        }
    }

    /// The release commands for the first `n` streaming voices after the
    /// device's report, by place.
    pub open spec fn streaming_releases(self, stopped: Seq<bool>, n: int) -> Seq<DeviceCommand>
        decreases n,
    {
        if n <= 0 {
            Seq::empty()
        } else if reclaimable(
            self.binding(Voice::Streaming((n - 1) as usize)),
            reported(stopped, n - 1),
        ) {
            self.streaming_releases(stopped, n - 1).push(
                DeviceCommand::Release(Voice::Streaming((n - 1) as usize)),
            )
        } else {
            self.streaming_releases(stopped, n - 1)
        }
    }

    /// The script of `checked`: a release for each voice given back, the
    /// static voices first, each kind by place.
    pub open spec fn check_script(self, static_stopped: Seq<bool>, streaming_stopped: Seq<bool>) -> Seq<
        DeviceCommand,
    > {
        self.static_releases(static_stopped, self.sources.len() as int)
            + self.streaming_releases(streaming_stopped, self.streaming.len() as int)
    }

    /// The pool with every voice released.
    pub open spec fn purged(self) -> Pool {
        Pool {
            next_event: self.next_event,
            sources: Seq::new(self.sources.len(), |i: int| SoundSource { current_binding: None }),
            streaming: Seq::new(self.streaming.len(), |i: int| StreamingVoice::released()),
        }
    }

    /// The script of `purged`: a release for every voice, the static voices
    /// first, each kind by place.
    pub open spec fn purge_script(self) -> Seq<DeviceCommand> {
        Seq::new(
            self.sources.len() + self.streaming.len(),
            |i: int|
                if i < self.sources.len() {
                    DeviceCommand::Release(Voice::Static(i as usize))
                } else {
                    DeviceCommand::Release(Voice::Streaming((i - self.sources.len()) as usize))
                },
        )
    }

    /// The pool after one step of the refill of streaming voice `index`, and
    /// what to do next. A voice that the pool does not have takes no step.
    pub open spec fn refilled(self, index: int, event: StreamEvent, target: u64) -> (Pool, StreamAction) {
        if 0 <= index < self.streaming.len() {
            let (v, action) = self.streaming[index].step(event, target);
            (Pool { streaming: self.streaming.update(index, v), ..self }, action)
        } else {
            (self, StreamAction::Done)
        }
    }
}

/// The pool of voices.
#[derive(Debug)]
pub struct Sources {
    pub next_event: SoundEventId,
    pub sources: Vec<SoundSource>,
    pub streaming: Vec<StreamingSoundSource>,
}

impl View for Sources {
    type V = Pool;

    open spec fn view(&self) -> Pool {
        Pool {
            next_event: self.next_event,
            sources: self.sources@,
            streaming: Seq::new(self.streaming@.len(), |i: int| self.streaming@[i]@),
        }
    }
}

impl Sources {
    /// The pool's invariant, on the pool itself.
    pub open spec fn wf(&self) -> bool {
        self@.wf()
    }

    /// Every place in a pool fits a `usize`.
    pub proof fn lemma_bounded(&self)
        ensures
            self@.sources.len() <= usize::MAX,
            self@.streaming.len() <= usize::MAX,
    {
        assert(self.sources.len() == self.sources@.len());
        assert(self.streaming.len() == self.streaming@.len());
    }

    /// A pool without voices.
    pub fn new() -> (r: Sources)
        ensures
            r@.next_event == 0,
            r@.sources.len() == 0,
            r@.streaming.len() == 0,
            r.wf(),
    {
        Sources { next_event: 0, sources: Vec::new(), streaming: Vec::new() }
    }

    /// Adds a static voice, bound to nothing.
    pub fn add_static(&mut self)
        ensures
            final(self)@ == (Pool {
                sources: old(self)@.sources.push(SoundSource { current_binding: None }),
                ..old(self)@
            }),
            old(self).wf() ==> final(self).wf(),
    {
        self.sources.push(SoundSource { current_binding: None });
        proof {
            assert(final(self)@.streaming =~= old(self)@.streaming);
            let a = old(self)@;
            let b = final(self)@;
            final(self).lemma_bounded();
            assert forall|v: Voice| #[trigger] b.binding(v) == a.binding(v) by {}
        }
    }

    /// Adds a streaming voice, bound to nothing, without a stream.
    pub fn add_streaming(&mut self)
        ensures
            final(self)@ == (Pool {
                streaming: old(self)@.streaming.push(StreamingVoice::released()),
                ..old(self)@
            }),
            old(self).wf() ==> final(self).wf(),
    {
        self.streaming.push(
            StreamingSoundSource {
                current_binding: None,
                stream: StreamState::Closed,
                queued: Vec::new(),
            },
        );
        proof {
            assert(final(self)@.streaming =~= old(self)@.streaming.push(StreamingVoice::released()));
            let a = old(self)@;
            let b = final(self)@;
            final(self).lemma_bounded();
            assert forall|v: Voice| #[trigger] b.binding(v) == a.binding(v) by {}
        }
    }

    /// The voice of a loan that is still valid; of a stale loan, nothing.
    pub fn for_loan(&self, loan: SoundSourceLoan) -> (r: Option<Voice>)
        ensures
            r == if self@.loan_valid(loan) {
                Some(loan.voice())
            } else {
                None
            },
    {
        let binding = if loan.streaming {
            if loan.source_id < self.streaming.len() {
                self.streaming[loan.source_id].current_binding
            } else {
                None
            }
        } else {
            if loan.source_id < self.sources.len() {
                self.sources[loan.source_id].current_binding
            } else {
                None
            }
        };
        match binding {
            Some(b) => if b.event_id == loan.event_id {
                Some(loan.to_voice())
            } else {
                None
            },
            None => None,
        }
    }

    /// Whether `loan` will still be valid once `check_bindings` has run on
    /// this report of the device.
    pub fn survives(&self, loan: SoundSourceLoan, static_stopped: &Vec<bool>, streaming_stopped: &Vec<bool>) -> (r:
        bool)
        ensures
            r == self@.checked(static_stopped@, streaming_stopped@).loan_valid(loan),
    {
        proof {
            lemma_checked_binding(self@, static_stopped@, streaming_stopped@, loan.voice());
        }
        let binding = if loan.streaming {
            if loan.source_id < self.streaming.len() {
                self.streaming[loan.source_id].current_binding
            } else {
                None
            }
        } else {
            if loan.source_id < self.sources.len() {
                self.sources[loan.source_id].current_binding
            } else {
                None
            }
        };
        let stopped = if loan.streaming {
            loan.source_id < streaming_stopped.len() && streaming_stopped[loan.source_id]
        } else {
            loan.source_id < static_stopped.len() && static_stopped[loan.source_id]
        };
        match binding {
            Some(b) => b.event_id == loan.event_id && !(!b.looping && stopped),
            None => false,
        }
    }

    /// Lends the first free static voice under a new identity.
    pub fn loan_next_free_static(&mut self) -> (r: Option<SoundSourceLoan>)
        ensures
            r == old(self)@.next_loan(false),
            final(self)@ == old(self)@.loaned(false),
            old(self).wf() ==> final(self).wf(),
    {
        if self.next_event == u64::MAX {
            return None;
        }
        let mut i: usize = 0;
        while i < self.sources.len()
            invariant
                *self == *old(self),
                self.next_event != u64::MAX,
                i <= self.sources.len(),
                self@.free_static(0) == self@.free_static(i as int),
            decreases self.sources.len() - i,
        {
            if self.sources[i].current_binding.is_none() {
                let loan = SoundSourceLoan { source_id: i, event_id: self.next_event, streaming: false };
                let binding = SoundBinding { event_id: self.next_event, looping: false };
                self.sources[i].current_binding = Some(binding);
                self.next_event = self.next_event + 1;
                proof {
                    let g = old(self)@.with_binding(loan.voice(), Some(binding));
                    assert(final(self)@.sources =~= g.sources);
                    assert(final(self)@.streaming =~= g.streaming);
                    if old(self)@.wf() {
                        lemma_loaned_wf(old(self)@, false);
                    }
                }
                return Some(loan);
            }
            i = i + 1;
        }
        None
    }

    /// Lends the first free streaming voice under a new identity.
    pub fn loan_next_free_streaming(&mut self) -> (r: Option<SoundSourceLoan>)
        ensures
            r == old(self)@.next_loan(true),
            final(self)@ == old(self)@.loaned(true),
            old(self).wf() ==> final(self).wf(),
    {
        if self.next_event == u64::MAX {
            return None;
        }
        let mut i: usize = 0;
        while i < self.streaming.len()
            invariant
                *self == *old(self),
                self.next_event != u64::MAX,
                i <= self.streaming.len(),
                self@.free_streaming(0) == self@.free_streaming(i as int),
            decreases self.streaming.len() - i,
        {
            if self.streaming[i].current_binding.is_none() {
                let loan = SoundSourceLoan { source_id: i, event_id: self.next_event, streaming: true };
                let binding = SoundBinding { event_id: self.next_event, looping: false };
                self.streaming[i].current_binding = Some(binding);
                self.next_event = self.next_event + 1;
                proof {
                    let g = old(self)@.with_binding(loan.voice(), Some(binding));
                    assert(final(self)@.sources =~= g.sources);
                    assert(final(self)@.streaming =~= g.streaming);
                    if old(self)@.wf() {
                        lemma_loaned_wf(old(self)@, true);
                    }
                }
                return Some(loan);
            }
            i = i + 1;
        }
        None
    }

    /// Assigns an event under `loan`: the voice of a valid loan keeps its
    /// identity and takes the loop flag. Says whether the loan was valid.
    pub fn assign_event(&mut self, loan: SoundSourceLoan, looping: bool) -> (r: bool)
        ensures
            r == old(self)@.loan_valid(loan),
            final(self)@ == old(self)@.assigned(loan, looping),
            old(self).wf() ==> final(self).wf(),
    {
        match self.for_loan(loan) {
            Some(Voice::Static(i)) => {
                self.sources[i].current_binding = Some(
                    SoundBinding { event_id: loan.event_id, looping },
                );
                proof {
                    let g = old(self)@.assigned(loan, looping);
                    assert(final(self)@.sources =~= g.sources);
                    assert(final(self)@.streaming =~= g.streaming);
                    if old(self)@.wf() {
                        lemma_assigned_wf(old(self)@, loan, looping);
                    }
                }
                true
            },
            Some(Voice::Streaming(i)) => {
                self.streaming[i].current_binding = Some(
                    SoundBinding { event_id: loan.event_id, looping },
                );
                proof {
                    let g = old(self)@.assigned(loan, looping);
                    assert(final(self)@.sources =~= g.sources);
                    assert(final(self)@.streaming =~= g.streaming);
                    if old(self)@.wf() {
                        lemma_assigned_wf(old(self)@, loan, looping);
                    }
                }
                true
            },
            None => false,
        }
    }

    /// Opens the stream of streaming voice `index` and empties its queue. A
    /// voice that the pool does not have is passed over.
    pub fn attach_stream(&mut self, index: usize)
        ensures
            final(self)@ == old(self)@.attached(index as int),
            old(self).wf() ==> final(self).wf(),
    {
        if index < self.streaming.len() {
            self.streaming[index].stream = StreamState::Open;
            self.streaming[index].queued = Vec::new();
            proof {
                let a = old(self)@;
                let b = final(self)@;
                assert(b.streaming =~= a.attached(index as int).streaming);
                assert forall|v: Voice| #[trigger] b.binding(v) == a.binding(v) by {}
            }
        }
    }

    /// Gives back the finished voices: each voice bound to a sound that does
    /// not loop, which the device reports as stopped, is released. The result
    /// is the script that releases them on the device.
    pub fn check_bindings(&mut self, static_stopped: &Vec<bool>, streaming_stopped: &Vec<bool>) -> (script:
        Vec<DeviceCommand>)
        ensures
            final(self)@ == old(self)@.checked(static_stopped@, streaming_stopped@),
            script@ == old(self)@.check_script(static_stopped@, streaming_stopped@),
            old(self).wf() ==> final(self).wf(),
    {
        let mut script: Vec<DeviceCommand> = Vec::new();
        let ghost before = self@;
        let mut i: usize = 0;
        while i < self.sources.len()
            invariant
                i <= self.sources.len(),
                self.sources@.len() == before.sources.len(),
                self.next_event == before.next_event,
                self@.streaming == before.streaming,
                forall|j: int|
                    0 <= j < i ==> self.sources@[j] == before.checked(
                        static_stopped@,
                        streaming_stopped@,
                    ).sources[j],
                forall|j: int| i <= j < self.sources@.len() ==> self.sources@[j] == before.sources[j],
                script@ == before.static_releases(static_stopped@, i as int),
            decreases self.sources.len() - i,
        {
            let stopped = i < static_stopped.len() && static_stopped[i];
            let give_back = match self.sources[i].current_binding {
                Some(b) => !b.looping && stopped,
                None => false,
            };
            if give_back {
                self.sources[i].current_binding = None;
                script.push(DeviceCommand::Release(Voice::Static(i)));
            }
            proof {
                assert(self@.streaming =~= before.streaming);
            }
            i = i + 1;
        }
        let ghost statics = script@;
        let mut k: usize = 0;
        while k < self.streaming.len()
            invariant
                k <= self.streaming.len(),
                self.streaming@.len() == before.streaming.len(),
                self.next_event == before.next_event,
                self.sources@ =~= before.checked(static_stopped@, streaming_stopped@).sources,
                forall|j: int|
                    0 <= j < k ==> self.streaming@[j]@ == before.checked(
                        static_stopped@,
                        streaming_stopped@,
                    ).streaming[j],
                forall|j: int|
                    k <= j < self.streaming@.len() ==> self.streaming@[j]@ == before.streaming[j],
                script@ == statics + before.streaming_releases(streaming_stopped@, k as int),
            decreases self.streaming.len() - k,
        {
            let stopped = k < streaming_stopped.len() && streaming_stopped[k];
            let give_back = match self.streaming[k].current_binding {
                Some(b) => !b.looping && stopped,
                None => false,
            };
            if give_back {
                self.streaming[k].current_binding = None;
                self.streaming[k].stream = StreamState::Closed;
                self.streaming[k].queued = Vec::new();
                script.push(DeviceCommand::Release(Voice::Streaming(k)));
                proof {
                    assert(script@ =~= statics + before.streaming_releases(
                        streaming_stopped@,
                        k as int + 1,
                    ));
                }
            }
            k = k + 1;
        }
        proof {
            let g = before.checked(static_stopped@, streaming_stopped@);
            assert(self@.streaming =~= g.streaming);
            if before.wf() {
                lemma_checked_wf(before, static_stopped@, streaming_stopped@);
            }
        }
        script
    }

    /// Releases every voice, whatever it plays. The result is the script that
    /// releases them on the device.
    pub fn purge(&mut self) -> (script: Vec<DeviceCommand>)
        ensures
            final(self)@ == old(self)@.purged(),
            script@ == old(self)@.purge_script(),
            final(self).wf(),
    {
        let mut script: Vec<DeviceCommand> = Vec::new();
        let ghost before = self@;
        let mut i: usize = 0;
        while i < self.sources.len()
            invariant
                i <= self.sources.len(),
                self.sources@.len() == before.sources.len(),
                self.next_event == before.next_event,
                self@.streaming == before.streaming,
                forall|j: int| 0 <= j < i ==> self.sources@[j].current_binding is None,
                script@ =~= before.purge_script().take(i as int),
            decreases self.sources.len() - i,
        {
            self.sources[i].current_binding = None;
            script.push(DeviceCommand::Release(Voice::Static(i)));
            proof {
                assert(self@.streaming =~= before.streaming);
            }
            i = i + 1;
        }
        let mut k: usize = 0;
        while k < self.streaming.len()
            invariant
                k <= self.streaming.len(),
                self.streaming@.len() == before.streaming.len(),
                self.sources@.len() == before.sources.len(),
                self.next_event == before.next_event,
                forall|j: int| 0 <= j < self.sources@.len() ==> self.sources@[j].current_binding is None,
                forall|j: int| 0 <= j < k ==> self.streaming@[j]@ == StreamingVoice::released(),
                script@ =~= before.purge_script().take(before.sources.len() + k),
            decreases self.streaming.len() - k,
        {
            self.streaming[k].current_binding = None;
            self.streaming[k].stream = StreamState::Closed;
            self.streaming[k].queued = Vec::new();
            script.push(DeviceCommand::Release(Voice::Streaming(k)));
            k = k + 1;
        }
        proof {
            let g = before.purged();
            assert(self@.sources =~= g.sources);
            assert(self@.streaming =~= g.streaming);
            assert(script@ =~= before.purge_script());
            self.lemma_bounded();
            lemma_purged(before);
        }
        script
    }

    /// One step of the refill of streaming voice `index`. A refill starts
    /// with `Begin` and goes on, each answer saying what to report next,
    /// until the answer is `Done` or `Release`. It drops the slots that the
    /// device has finished, then asks for chunks while the stream is open and
    /// less than `target_duration` milliseconds are queued; at the end of a
    /// stream it asks for the stream to be opened again if the sound loops;
    /// on a decoder's failure it unbinds the voice.
    pub fn ensure_buffers_queued(&mut self, index: usize, event: StreamEvent, target_duration: u64) -> (r:
        StreamAction)
        ensures
            final(self)@ == old(self)@.refilled(index as int, event, target_duration).0,
            r == old(self)@.refilled(index as int, event, target_duration).1,
            old(self).wf() ==> final(self).wf(),
    {
        if index >= self.streaming.len() {
            return StreamAction::Done;
        }
        let ghost before = self@;
        let ghost goal = before.refilled(index as int, event, target_duration);
        let mut decide = true;
        let mut action = StreamAction::Done;
        match event {
            StreamEvent::Begin { processed } => {
                let len: usize = self.streaming[index].queued.len();
                let gone: usize = if processed <= len {
                    processed
                } else {
                    len
                };
                let mut rest: Vec<u64> = Vec::new();
                let mut j: usize = gone;
                while j < len
                    invariant
                        gone <= j <= len,
                        index < self.streaming@.len(),
                        len == self.streaming@[index as int].queued@.len(),
                        *self == *old(self),
                        rest@ =~= self.streaming@[index as int].queued@.subrange(gone as int, j as int),
                    decreases len - j,
                {
                    rest.push(self.streaming[index].queued[j]);
                    j = j + 1;
                }
                proof {
                    assert(rest@ =~= before.streaming[index as int].queued.skip(gone as int));
                }
                self.streaming[index].queued = rest;
            },
            StreamEvent::Chunk { duration } => {
                if self.streaming[index].stream == StreamState::Open {
                    self.streaming[index].queued.push(duration);
                } else {
                    decide = false;
                }
            },
            StreamEvent::EndOfStream => {
                decide = false;
                if self.streaming[index].stream == StreamState::Open {
                    let looping = match self.streaming[index].current_binding {
                        Some(b) => b.looping,
                        None => false,
                    };
                    if looping {
                        action = StreamAction::Reopen;
                    } else {
                        self.streaming[index].stream = StreamState::Exhausted;
                    }
                }
            },
            StreamEvent::Reopened => {},
            StreamEvent::Failed => {
                decide = false;
                action = StreamAction::Release;
                self.streaming[index].current_binding = None;
                self.streaming[index].stream = StreamState::Closed;
                self.streaming[index].queued = Vec::new();
            },
        }
        if decide && self.streaming[index].stream == StreamState::Open {
            if !reaches(&self.streaming[index].queued, target_duration) {
                action = StreamAction::Decode;
            }
        }
        proof {
            assert(self@.streaming =~= goal.0.streaming);
            assert(self@.sources =~= goal.0.sources);
            if before.wf() {
                lemma_refilled_wf(before, index as int, event, target_duration);
            }
        }
        action
    }
}

/// Whether the durations in `queued` add up to `target` or more.
pub fn reaches(queued: &Vec<u64>, target: u64) -> (r: bool)
    ensures
        r == (total(queued@) >= target),
{
    let mut sum: u128 = 0;
    let mut i: usize = 0;
    while i < queued.len()
        invariant
            i <= queued.len(),
            sum == total(queued@.take(i as int)),
            sum <= i * 0x1_0000_0000_0000_0000,
            i <= usize::MAX,
        decreases queued.len() - i,
    {
        proof {
            assert(queued@.take(i as int + 1).drop_last() =~= queued@.take(i as int));
            assert(i * 0x1_0000_0000_0000_0000 + 0x1_0000_0000_0000_0000 == (i + 1)
                * 0x1_0000_0000_0000_0000) by (nonlinear_arith);
            assert(i * 0x1_0000_0000_0000_0000 <= 0xffff_ffff_ffff_ffff * 0x1_0000_0000_0000_0000)
                by (nonlinear_arith)
                requires
                    i <= 0xffff_ffff_ffff_ffff,
            ;
        }
        sum = sum + queued[i] as u128;
        i = i + 1;
    }
    proof {
        assert(queued@.take(i as int) =~= queued@);
    }
    sum >= target as u128
}

/// After `with_binding`, the voice that was named has the new binding, if the
/// pool has it, and every other voice has the binding it had.
pub proof fn lemma_with_binding(p: Pool, voice: Voice, binding: Option<SoundBinding>, w: Voice)
    ensures
        p.with_binding(voice, binding).binding(w) == if w == voice && (p.binding(voice) is Some
            || match voice {
            Voice::Static(i) => i < p.sources.len(),
            Voice::Streaming(i) => i < p.streaming.len(),
        }) {
            binding
        } else {
            p.binding(w)
        },
{
}

/// A free voice that `free_static` finds is in the pool, is bound to nothing,
/// and no static voice from `from` up to it is free; where it finds none,
/// every static voice from `from` on is bound.
pub proof fn lemma_free_static(p: Pool, from: int)
    requires
        0 <= from,
    ensures
        match p.free_static(from) {
            Some(i) => from <= i < p.sources.len() && p.sources[i].current_binding is None
                && forall|j: int| from <= j < i ==> p.sources[j].current_binding is Some,
            None => forall|j: int| from <= j < p.sources.len() ==> p.sources[j].current_binding is Some,
        },
    decreases p.sources.len() - from,
{
    if from < p.sources.len() && p.sources[from].current_binding is Some {
        lemma_free_static(p, from + 1);
    }
}

/// As `lemma_free_static`, for the streaming voices.
pub proof fn lemma_free_streaming(p: Pool, from: int)
    requires
        0 <= from,
    ensures
        match p.free_streaming(from) {
            Some(i) => from <= i < p.streaming.len() && p.streaming[i].current_binding is None
                && forall|j: int| from <= j < i ==> p.streaming[j].current_binding is Some,
            None => forall|j: int|
                from <= j < p.streaming.len() ==> p.streaming[j].current_binding is Some,
        },
    decreases p.streaming.len() - from,
{
    if from < p.streaming.len() && p.streaming[from].current_binding is Some {
        lemma_free_streaming(p, from + 1);
    }
}

/// Lending a voice keeps the pool's invariant, and the loan is valid in the
/// pool that results.
pub proof fn lemma_loaned_wf(p: Pool, streaming: bool)
    requires
        p.wf(),
    ensures
        p.loaned(streaming).wf(),
        p.next_loan(streaming) matches Some(loan) ==> p.loaned(streaming).loan_valid(loan)
            && p.binding(loan.voice()) is None,
{
    lemma_free_static(p, 0);
    lemma_free_streaming(p, 0);
    if let Some(loan) = p.next_loan(streaming) {
        let b = Some(SoundBinding { event_id: loan.event_id, looping: false });
        let q = p.loaned(streaming);
        assert forall|w: Voice|
            #[trigger] q.binding(w) == if w == loan.voice() {
                b
            } else {
                p.binding(w)
            } by {
            lemma_with_binding(p, loan.voice(), b, w);
        }
    }
}

/// Assigning an event under a loan keeps the pool's invariant, and keeps
/// every loan as valid or stale as it was.
pub proof fn lemma_assigned_wf(p: Pool, loan: SoundSourceLoan, looping: bool)
    requires
        p.wf(),
    ensures
        p.assigned(loan, looping).wf(),
        forall|other: SoundSourceLoan|
            p.assigned(loan, looping).loan_valid(other) == p.loan_valid(other),
{
    let q = p.assigned(loan, looping);
    let b = Some(SoundBinding { event_id: loan.event_id, looping });
    assert forall|w: Voice|
        #[trigger] q.binding(w) == if w == loan.voice() && p.loan_valid(loan) {
            b
        } else {
            p.binding(w)
        } by {
        lemma_with_binding(p, loan.voice(), b, w);
    }
    assert forall|other: SoundSourceLoan| q.loan_valid(other) == p.loan_valid(other) by {
        assert(q.binding(other.voice()) is Some == p.binding(other.voice()) is Some);
    }
}

/// What `checked` leaves of each voice's binding: nothing where the voice
/// was given back, else what it was.
pub proof fn lemma_checked_binding(p: Pool, static_stopped: Seq<bool>, streaming_stopped: Seq<bool>, w: Voice)
    ensures
        p.checked(static_stopped, streaming_stopped).binding(w) == match w {
            Voice::Static(i) => if reclaimable(p.binding(w), reported(static_stopped, i as int)) {
                None
            } else {
                p.binding(w)
            },
            Voice::Streaming(i) => if reclaimable(p.binding(w), reported(streaming_stopped, i as int)) {
                None
            } else {
                p.binding(w)
            },
        },
{
}

/// Giving back the finished voices keeps the pool's invariant.
pub proof fn lemma_checked_wf(p: Pool, static_stopped: Seq<bool>, streaming_stopped: Seq<bool>)
    requires
        p.wf(),
    ensures
        p.checked(static_stopped, streaming_stopped).wf(),
{
    let q = p.checked(static_stopped, streaming_stopped);
    assert forall|w: Voice| (#[trigger] q.binding(w)) is Some implies q.binding(w) == p.binding(w) by {
        lemma_checked_binding(p, static_stopped, streaming_stopped, w);
    }
}

/// After a purge no voice is bound, so the invariant holds and no loan is
/// valid.
pub proof fn lemma_purged(p: Pool)
    ensures
        p.sources.len() <= usize::MAX && p.streaming.len() <= usize::MAX ==> p.purged().wf(),
        forall|w: Voice| (#[trigger] p.purged().binding(w)) is None,
        forall|loan: SoundSourceLoan| !p.purged().loan_valid(loan),
{
    let q = p.purged();
    assert forall|w: Voice| (#[trigger] q.binding(w)) is None by {}
    assert forall|loan: SoundSourceLoan| !q.loan_valid(loan) by {
        assert(q.binding(loan.voice()) is None);
    }
}

/// A step of a refill keeps the pool's invariant.
pub proof fn lemma_refilled_wf(p: Pool, index: int, event: StreamEvent, target: u64)
    requires
        p.wf(),
    ensures
        p.refilled(index, event, target).0.wf(),
{
    let q = p.refilled(index, event, target).0;
    assert forall|w: Voice| (#[trigger] q.binding(w)) is Some implies q.binding(w) == p.binding(w) by {}
}

} // verus!
