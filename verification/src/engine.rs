//! The engine: it takes one update at a time and brings the context, and the
//! loans of the persistent sounds, in line with it.
use vstd::prelude::*;
use crate::{DistanceModel, Gain, Listener, LoadResult, SoundEvent, SoundEventResult, SoundName};
use crate::context::{lemma_position, position, ContextState, SoundContext};
use crate::device::DeviceCommand;
use crate::errors::{PreloadError, SoundEventError};
use crate::load::LoadedSound;
use crate::source::SoundSourceLoan;

verus! {

/// One update for the engine.
#[derive(Clone, Debug)]
pub enum SoundEngineUpdate {
    /// Load these sounds, each with its gain.
    Preload(Vec<(SoundName, Gain)>),
    /// Set the distance model.
    DistanceModel(DistanceModel),
    /// One tick: what should be playing now. `sounds` are played once;
    /// each of `persistent_sounds` goes on under its key from tick to tick.
    Render {
        master_gain: Gain,
        sounds: Vec<SoundEvent>,
        persistent_sounds: Vec<(String, SoundEvent)>,
        listener: Listener,
    },
    /// Release every voice and drop every buffer.
    Clear,
    /// As `Clear`, and the engine is to end.
    Stop,
}

/// What was seen outside before an update is processed.
#[derive(Debug)]
pub struct Observed {
    /// For each static voice, by place, whether the device reports it as
    /// stopped.
    pub static_stopped: Vec<bool>,
    /// The same for each streaming voice.
    pub streaming_stopped: Vec<bool>,
    /// What was found under the name of each item of the update, by place:
    /// for a preload its sounds; for a tick its `sounds`, then its
    /// `persistent_sounds`. An item needs an entry only where
    /// `SoundContext::needs_load` says so.
    pub loaded: Vec<Option<LoadResult<LoadedSound>>>,
}

/// What the engine answers to an update.
#[derive(Debug)]
pub struct Processed {
    /// Whether the engine goes on.
    pub should_continue: bool,
    /// What the caller is to run on the device, in order.
    pub script: Vec<DeviceCommand>,
    /// How each item of the update fared, by place: the loan of an event
    /// that plays, nothing for a sound that is loaded, or the error.
    pub outcomes: Vec<SoundEventResult<Option<SoundSourceLoan>>>,
}

/// The engine.
#[derive(Debug)]
pub struct SoundEngine {
    /// When the engine was made, in nanoseconds since an unspecified epoch.
    pub last_render_time: u64,
    /// The loan of each persistent sound, by key; no key stands here twice.
    pub loans: Vec<(String, SoundSourceLoan)>,
}

/// The engine's and the context's state while an update is processed, with
/// the script and the outcomes so far.
pub struct Tick {
    pub context: ContextState,
    pub loans: Seq<(String, SoundSourceLoan)>,
    pub script: Seq<DeviceCommand>,
    pub outcomes: Seq<SoundEventResult<Option<SoundSourceLoan>>>,
}

/// What was handed in for the item at place `k`.
pub open spec fn supplied(loaded: Seq<Option<LoadResult<LoadedSound>>>, k: int) -> Option<LoadResult<LoadedSound>> {
    if 0 <= k < loaded.len() {
        loaded[k]
    } else {
        None
    }
}

/// The outcome of an event that was played.
pub open spec fn play_outcome(result: SoundEventResult<SoundSourceLoan>) -> SoundEventResult<Option<SoundSourceLoan>> {
    match result {
        Ok(loan) => Ok(Some(loan)),
        Err(e) => Err(e),
    }
}

/// The outcome of a sound that was loaded.
pub open spec fn load_outcome(result: Result<(), PreloadError>) -> SoundEventResult<Option<SoundSourceLoan>> {
    match result {
        Ok(_) => Ok(None),
        Err(PreloadError::LoadError(e)) => Err(SoundEventError::LoadSoundError(e)),
    }
}

/// No key stands twice among the loans.
pub open spec fn distinct_keys(loans: Seq<(String, SoundSourceLoan)>) -> bool {
    forall|i: int, j: int| 0 <= i < j < loans.len() ==> loans[i].0@ != loans[j].0@
}

/// The loan that stands under `key`.
pub open spec fn loan_of(loans: Seq<(String, SoundSourceLoan)>, key: Seq<char>) -> Option<SoundSourceLoan> {
    match position(loans, key, 0) {
        Some(i) => Some(loans[i].1),
        None => None,
    }
}

/// The loans without the one under `key`.
pub open spec fn without(loans: Seq<(String, SoundSourceLoan)>, key: Seq<char>) -> Seq<(String, SoundSourceLoan)> {
    match position(loans, key, 0) {
        Some(i) => loans.remove(i),
        None => loans,
    }
}

impl Tick {
    /// The tick after the sound `name` was loaded with `gain`.
    pub open spec fn preload(self, name: SoundName, gain: Gain, loaded: Option<LoadResult<LoadedSound>>) -> Tick {
        let l = self.context.loaded_sound(name, gain, loaded);
        Tick {
            context: l.state,
            loans: self.loans,
            script: self.script + l.script,
            outcomes: self.outcomes.push(load_outcome(l.result)),
        }
    }

    /// The tick after the first `n` of `sounds` were loaded, each from what
    /// was handed in at its place.
    pub open spec fn preloads(
        self,
        sounds: Seq<(SoundName, Gain)>,
        loaded: Seq<Option<LoadResult<LoadedSound>>>,
        n: int,
    ) -> Tick
        decreases n,
    {
        if n <= 0 {
            self
        } else {
            self.preloads(sounds, loaded, n - 1).preload(
                sounds[n - 1].0,
                sounds[n - 1].1,
                supplied(loaded, n - 1),
            )
        }
    }

    /// The tick after a transient event was played: always on a fresh loan.
    pub open spec fn transient(self, event: SoundEvent, loaded: Option<LoadResult<LoadedSound>>) -> Tick {
        let p = self.context.played(event, None, loaded);
        Tick {
            context: p.state,
            loans: self.loans,
            script: self.script + p.script,
            outcomes: self.outcomes.push(play_outcome(p.result)),
        }
    }

    /// The tick after the first `n` of `sounds` were played.
    pub open spec fn transients(
        self,
        sounds: Seq<SoundEvent>,
        loaded: Seq<Option<LoadResult<LoadedSound>>>,
        n: int,
    ) -> Tick
        decreases n,
    {
        if n <= 0 {
            self
        } else {
            self.transients(sounds, loaded, n - 1).transient(sounds[n - 1], supplied(loaded, n - 1))
        }
    }

    /// The tick after a persistent event was played: the loan under its key
    /// is taken out and played with; the loan that results is put back under
    /// the key; after an error the key has no loan.
    pub open spec fn persistent(self, key: String, event: SoundEvent, loaded: Option<LoadResult<LoadedSound>>) -> Tick {
        let p = self.context.played(event, loan_of(self.loans, key@), loaded);
        let rest = without(self.loans, key@);
        Tick {
            context: p.state,
            loans: match p.result {
                Ok(loan) => rest.push((key, loan)),
                Err(_) => rest,
            },
            script: self.script + p.script,
            outcomes: self.outcomes.push(play_outcome(p.result)),
        }
    }

    /// The tick after the first `n` of `sounds` were played, where the
    /// entry for the first of them was handed in at place `offset`.
    pub open spec fn persistents(
        self,
        sounds: Seq<(String, SoundEvent)>,
        loaded: Seq<Option<LoadResult<LoadedSound>>>,
        offset: int,
        n: int,
    ) -> Tick
        decreases n,
    {
        if n <= 0 {
            self
        } else {
            self.persistents(sounds, loaded, offset, n - 1).persistent(
                sounds[n - 1].0,
                sounds[n - 1].1,
                supplied(loaded, offset + n - 1),
            )
        }
    }

    /// The tick after the finished voices were given back, as the device
    /// reported them, and a refill was ordered for every streaming voice
    /// that is still bound.
    pub open spec fn cleaned(self, static_stopped: Seq<bool>, streaming_stopped: Seq<bool>) -> Tick {
        let context = ContextState {
            pool: self.context.pool.checked(static_stopped, streaming_stopped),
            ..self.context
        };
        Tick {
            context,
            script: self.script + self.context.pool.check_script(static_stopped, streaming_stopped)
                + context.refills(context.pool.streaming.len() as int),
            ..self
        }
    }

    /// The tick after the master gain and the listener were set, each only
    /// where it differs from what the context has.
    pub open spec fn tuned(self, master_gain: Gain, listener: Listener) -> Tick {
        let gained = if self.context.master_gain != master_gain {
            Tick {
                context: ContextState { master_gain, ..self.context },
                script: self.script.push(DeviceCommand::SetGain(master_gain)),
                ..self
            }
        } else {
            self
        };
        if gained.context.listener != listener {
            Tick {
                context: ContextState { listener, ..gained.context },
                script: gained.script.push(DeviceCommand::SetListener(listener)),
                ..gained
            }
        } else {
            gained
        }
    }

    /// The tick after a whole `Render`: the finished voices are given back,
    /// the streaming voices refilled, gain and listener set, the transient
    /// events played and then the persistent ones.
    pub open spec fn rendered(
        self,
        master_gain: Gain,
        sounds: Seq<SoundEvent>,
        persistent_sounds: Seq<(String, SoundEvent)>,
        listener: Listener,
        static_stopped: Seq<bool>,
        streaming_stopped: Seq<bool>,
        loaded: Seq<Option<LoadResult<LoadedSound>>>,
    ) -> Tick {
        self.cleaned(static_stopped, streaming_stopped).tuned(master_gain, listener).transients(
            sounds,
            loaded,
            sounds.len() as int,
        ).persistents(persistent_sounds, loaded, sounds.len() as int, persistent_sounds.len() as int)
    }

    /// The tick after every voice was released and every buffer dropped.
    /// The loans stay as they are: none of them is valid any more.
    pub open spec fn cleared(self) -> Tick {
        Tick {
            context: self.context.purged(),
            script: self.script + self.context.purge_script(),
            ..self
        }
    }

    /// The tick after `update`.
    pub open spec fn processed(self, update: SoundEngineUpdate, observed: Observed) -> Tick {
        match update {
            SoundEngineUpdate::Preload(sounds) => self.preloads(
                sounds@,
                observed.loaded@,
                sounds@.len() as int,
            ),
            SoundEngineUpdate::DistanceModel(distance_model) => Tick {
                context: ContextState { distance_model, ..self.context },
                script: self.script.push(DeviceCommand::SetDistanceModel(distance_model)),
                ..self
            },
            SoundEngineUpdate::Render { master_gain, sounds, persistent_sounds, listener } => self.rendered(
                master_gain,
                sounds@,
                persistent_sounds@,
                listener,
                observed.static_stopped@,
                observed.streaming_stopped@,
                observed.loaded@,
            ),
            SoundEngineUpdate::Clear => self.cleared(),
            SoundEngineUpdate::Stop => self.cleared(),
        }
    }

    /// Whether the item at place `k` of `update` is asked for: a sound to
    /// preload and a transient event where the cache lacks the name; a
    /// persistent event where, besides, its key has no loan that outlasts
    /// the device's report.
    pub open spec fn requested(self, update: SoundEngineUpdate, observed: Observed, k: int) -> bool {
        match update {
            SoundEngineUpdate::Preload(sounds) => 0 <= k < sounds@.len() && !self.context.cached(
                sounds@[k].0@,
            ),
            SoundEngineUpdate::Render { master_gain, sounds, persistent_sounds, listener } => if 0 <= k
                < sounds@.len() {
                !self.context.cached(sounds@[k].name@)
            } else {
                k < sounds@.len() + persistent_sounds@.len() && (ContextState {
                    pool: self.context.pool.checked(
                        observed.static_stopped@,
                        observed.streaming_stopped@,
                    ),
                    ..self.context
                }).needs_load(
                    persistent_sounds@[k - sounds@.len()].1.name@,
                    loan_of(self.loans, persistent_sounds@[k - sounds@.len()].0@),
                )
            },
            _ => false,
        }
    }

    /// Whether `process` reads what was handed in for the item at place `k`
    /// of `update`: it does where, at the item's turn, the cache lacks the
    /// name and, for an event, no valid loan stands for it.
    pub open spec fn needed(self, update: SoundEngineUpdate, observed: Observed, k: int) -> bool {
        match update {
            SoundEngineUpdate::Preload(sounds) => 0 <= k < sounds@.len() && !self.preloads(
                sounds@,
                observed.loaded@,
                k,
            ).context.cached(sounds@[k].0@),
            SoundEngineUpdate::Render { master_gain, sounds, persistent_sounds, listener } => {
                let tuned = self.cleaned(observed.static_stopped@, observed.streaming_stopped@).tuned(
                    master_gain,
                    listener,
                );
                if 0 <= k < sounds@.len() {
                    tuned.transients(sounds@, observed.loaded@, k).context.needs_load(
                        sounds@[k].name@,
                        None,
                    )
                } else {
                    let j = k - sounds@.len();
                    let turn = tuned.transients(sounds@, observed.loaded@, sounds@.len() as int).persistents(
                        persistent_sounds@,
                        observed.loaded@,
                        sounds@.len() as int,
                        j,
                    );
                    0 <= j < persistent_sounds@.len() && turn.context.needs_load(
                        persistent_sounds@[j].1.name@,
                        loan_of(turn.loans, persistent_sounds@[j].0@),
                    )
                }
            },
            _ => false,
        }
    }

    /// How many items `update` has.
    pub open spec fn items(update: SoundEngineUpdate) -> nat {
        match update {
            SoundEngineUpdate::Preload(sounds) => sounds@.len(),
            SoundEngineUpdate::Render { master_gain, sounds, persistent_sounds, listener } => sounds@.len()
                + persistent_sounds@.len(),
            _ => 0,
        }
    }

    /// The tick's invariant: that of the context, and no key twice among
    /// the loans.
    pub open spec fn wf(self) -> bool {
        self.context.wf() && distinct_keys(self.loans)
    }
}

/// The time of the call, read from the `time` crate's `precise_time_ns`: a
/// high-resolution counter in nanoseconds since an epoch that is not
/// specified. Nothing is claimed of the number.
#[verifier::external_body]
fn precise_time_ns() -> (now: u64) {
    time::precise_time_ns()
}

impl SoundEngine {
    /// The engine's invariant: no key stands twice among the loans.
    pub open spec fn wf(&self) -> bool {
        distinct_keys(self.loans@)
    }

    /// The tick that begins with this engine and `context`.
    pub open spec fn begin(&self, context: ContextState) -> Tick {
        Tick { context, loans: self.loans@, script: Seq::empty(), outcomes: Seq::empty() }
    }

    /// An engine without loans, made now: its `last_render_time` is what the
    /// clock says at the call, of which nothing is known beforehand.
    pub fn new() -> (r: SoundEngine)
        ensures
            r.loans@.len() == 0,
            r.wf(),
    {
        SoundEngine::started_at(precise_time_ns())
    }

    /// An engine without loans, made at the time `now`, in nanoseconds.
    pub fn started_at(now: u64) -> (r: SoundEngine)
        ensures
            r.last_render_time == now,
            r.loans@.len() == 0,
            r.wf(),
    {
        SoundEngine { last_render_time: now, loans: Vec::new() }
    }

    /// The loan under `key`.
    fn loan_for(&self, key: &String) -> (r: Option<SoundSourceLoan>)
        ensures
            r == loan_of(self.loans@, key@),
    {
        let mut i: usize = 0;
        while i < self.loans.len()
            invariant
                i <= self.loans.len(),
                position(self.loans@, key@, 0) == position(self.loans@, key@, i as int),
            decreases self.loans.len() - i,
        {
            if self.loans[i].0 == *key {
                return Some(self.loans[i].1);
            }
            i = i + 1;
        }
        None
    }

    /// Says, for each item of `update` by place, whether `process` is to be
    /// handed what is found under the item's name: the caller loads those,
    /// and no others, into `Observed::loaded` before it calls `process`
    /// with the same report of the device. Of `observed` only the report is
    /// read. Where the tick names so many items that their places do not fit
    /// a `usize`, the answer ends with the last place that does.
    pub fn load_requests(&self, context: &SoundContext, update: &SoundEngineUpdate, observed: &Observed) -> (r:
        Vec<bool>)
        ensures
            r@.len() == if Tick::items(*update) <= usize::MAX {
                Tick::items(*update)
            } else {
                usize::MAX as nat
            },
            forall|k: int|
                0 <= k < r@.len() ==> r@[k] == self.begin(context@).requested(*update, *observed, k),
    {
        let mut requests: Vec<bool> = Vec::new();
        match update {
            SoundEngineUpdate::Preload(sounds) => {
                let mut i: usize = 0;
                while i < sounds.len()
                    invariant
                        i <= sounds.len(),
                        requests@.len() == i,
                        *update == SoundEngineUpdate::Preload(*sounds),
                        forall|k: int|
                            0 <= k < i ==> requests@[k] == self.begin(context@).requested(
                                *update,
                                *observed,
                                k,
                            ),
                    decreases sounds.len() - i,
                {
                    requests.push(!context.is_loaded(&sounds[i].0));
                    i = i + 1;
                }
            },
            SoundEngineUpdate::Render { master_gain, sounds, persistent_sounds, listener } => {
                let mut i: usize = 0;
                while i < sounds.len()
                    invariant
                        i <= sounds.len(),
                        requests@.len() == i,
                        *update == (SoundEngineUpdate::Render {
                            master_gain: *master_gain,
                            sounds: *sounds,
                            persistent_sounds: *persistent_sounds,
                            listener: *listener,
                        }),
                        forall|k: int|
                            0 <= k < i ==> requests@[k] == self.begin(context@).requested(
                                *update,
                                *observed,
                                k,
                            ),
                    decreases sounds.len() - i,
                {
                    requests.push(!context.is_loaded(&sounds[i].name));
                    i = i + 1;
                }
                let offset: usize = sounds.len();
                let mut k: usize = 0;
                while k < persistent_sounds.len() && k < usize::MAX - offset
                    invariant
                        k <= persistent_sounds.len(),
                        offset == sounds@.len(),
                        offset + k <= usize::MAX,
                        requests@.len() == offset + k,
                        *update == (SoundEngineUpdate::Render {
                            master_gain: *master_gain,
                            sounds: *sounds,
                            persistent_sounds: *persistent_sounds,
                            listener: *listener,
                        }),
                        forall|j: int|
                            0 <= j < offset + k ==> requests@[j] == self.begin(context@).requested(
                                *update,
                                *observed,
                                j,
                            ),
                    decreases persistent_sounds.len() - k,
                {
                    let kept = match self.loan_for(&persistent_sounds[k].0) {
                        Some(l) => context.sources.survives(
                            l,
                            &observed.static_stopped,
                            &observed.streaming_stopped,
                        ),
                        None => false,
                    };
                    requests.push(!kept && !context.is_loaded(&persistent_sounds[k].1.name));
                    k = k + 1;
                }
            },
            _ => {},
        }
        requests
    }

    /// Takes the loan under `key` out of the table.
    fn take_loan(&mut self, key: &String) -> (r: Option<SoundSourceLoan>)
        ensures
            r == loan_of(old(self).loans@, key@),
            final(self).loans@ == without(old(self).loans@, key@),
            final(self).last_render_time == old(self).last_render_time,
    {
        let mut i: usize = 0;
        while i < self.loans.len()
            invariant
                *self == *old(self),
                i <= self.loans.len(),
                position(self.loans@, key@, 0) == position(self.loans@, key@, i as int),
            decreases self.loans.len() - i,
        {
            if self.loans[i].0 == *key {
                let entry = self.loans.remove(i);
                return Some(entry.1);
            }
            i = i + 1;
        }
        None
    }

    /// Processes one update. `observed` is what the caller saw outside
    /// beforehand. The answer holds the script for the device and says how
    /// each item fared; an item that fails does not hold up the others. The
    /// engine goes on unless the update is `Stop`.
    pub fn process(&mut self, context: &mut SoundContext, update: &SoundEngineUpdate, observed: &Observed) -> (r:
        Processed)
        ensures
            final(context)@ == old(self).begin(old(context)@).processed(*update, *observed).context,
            final(self).loans@ == old(self).begin(old(context)@).processed(*update, *observed).loans,
            r.script@ == old(self).begin(old(context)@).processed(*update, *observed).script,
            r.outcomes@ == old(self).begin(old(context)@).processed(*update, *observed).outcomes,
            r.should_continue == !(*update is Stop),
            final(self).last_render_time == old(self).last_render_time,
            old(self).wf() ==> final(self).wf(),
            old(context).wf() ==> final(context).wf(),
    {
        let ghost start = self.begin(context@);
        let mut script: Vec<DeviceCommand> = Vec::new();
        let mut outcomes: Vec<SoundEventResult<Option<SoundSourceLoan>>> = Vec::new();
        let mut should_continue = true;
        match update {
            SoundEngineUpdate::Preload(sounds) => {
                let mut i: usize = 0;
                while i < sounds.len()
                    invariant
                        i <= sounds.len(),
                        (Tick {
                            context: context@,
                            loans: self.loans@,
                            script: script@,
                            outcomes: outcomes@,
                        }) == start.preloads(sounds@, observed.loaded@, i as int),
                        *self == *old(self),
                        old(context).wf() ==> context.wf(),
                    decreases sounds.len() - i,
                {
                    let none: Option<LoadResult<LoadedSound>> = None;
                    let loaded = if i < observed.loaded.len() {
                        &observed.loaded[i]
                    } else {
                        &none
                    };
                    let (result, mut part) = context.load_sound(&sounds[i].0, sounds[i].1, loaded);
                    script.append(&mut part);
                    outcomes.push(
                        match result {
                            Ok(_) => Ok(None),
                            Err(PreloadError::LoadError(e)) => Err(SoundEventError::LoadSoundError(e)),
                        },
                    );
                    i = i + 1;
                }
            },
            SoundEngineUpdate::DistanceModel(model) => {
                let command = context.set_distace_model(*model);
                script.push(command);
            },
            SoundEngineUpdate::Render { master_gain, sounds, persistent_sounds, listener } => {
                let ghost cleaned = start.cleaned(observed.static_stopped@, observed.streaming_stopped@);
                let ghost tuned = cleaned.tuned(*master_gain, *listener);
                let mut released = context.sources.check_bindings(
                    &observed.static_stopped,
                    &observed.streaming_stopped,
                );
                script.append(&mut released);
                let mut refills = context.ensure_buffers_queued();
                script.append(&mut refills);
                assert(context@ == cleaned.context);
                assert(script@ == cleaned.script);
                if context.master_gain != *master_gain {
                    let command = context.set_gain(*master_gain);
                    script.push(command);
                }
                if context.listener != *listener {
                    let command = context.set_listener(*listener);
                    script.push(command);
                }
                assert(context@ == tuned.context);
                assert(script@ == tuned.script);
                let mut i: usize = 0;
                while i < sounds.len()
                    invariant
                        i <= sounds.len(),
                        (Tick {
                            context: context@,
                            loans: self.loans@,
                            script: script@,
                            outcomes: outcomes@,
                        }) == tuned.transients(sounds@, observed.loaded@, i as int),
                        *self == *old(self),
                        old(context).wf() ==> context.wf(),
                    decreases sounds.len() - i,
                {
                    let none: Option<LoadResult<LoadedSound>> = None;
                    let loaded = if i < observed.loaded.len() {
                        &observed.loaded[i]
                    } else {
                        &none
                    };
                    let (result, mut part) = context.play_event(sounds[i].clone(), None, loaded);
                    script.append(&mut part);
                    outcomes.push(
                        match result {
                            Ok(loan) => Ok(Some(loan)),
                            Err(e) => Err(e),
                        },
                    );
                    i = i + 1;
                }
                let ghost played = tuned.transients(sounds@, observed.loaded@, sounds@.len() as int);
                let offset: usize = sounds.len();
                let mut k: usize = 0;
                while k < persistent_sounds.len()
                    invariant
                        k <= persistent_sounds.len(),
                        offset == sounds@.len(),
                        (Tick {
                            context: context@,
                            loans: self.loans@,
                            script: script@,
                            outcomes: outcomes@,
                        }) == played.persistents(
                            persistent_sounds@,
                            observed.loaded@,
                            offset as int,
                            k as int,
                        ),
                        self.last_render_time == old(self).last_render_time,
                        old(self).wf() ==> self.wf(),
                        old(context).wf() ==> context.wf(),
                    decreases persistent_sounds.len() - k,
                {
                    let none: Option<LoadResult<LoadedSound>> = None;
                    let loaded = if offset <= observed.loaded.len() && k < observed.loaded.len() - offset {
                        &observed.loaded[offset + k]
                    } else {
                        &none
                    };
                    let key = &persistent_sounds[k].0;
                    proof {
                        if distinct_keys(self.loans@) {
                            lemma_without(self.loans@, key@);
                        }
                    }
                    let old_loan = self.take_loan(key);
                    let (result, mut part) = context.play_event(
                        persistent_sounds[k].1.clone(),
                        old_loan,
                        loaded,
                    );
                    script.append(&mut part);
                    match result {
                        Ok(loan) => {
                            self.loans.push((key.clone(), loan));
                            outcomes.push(Ok(Some(loan)));
                        },
                        Err(e) => {
                            outcomes.push(Err(e));
                        },
                    }
                    k = k + 1;
                }
            },
            SoundEngineUpdate::Clear => {
                let mut part = context.purge();
                script.append(&mut part);
            },
            SoundEngineUpdate::Stop => {
                let mut part = context.purge();
                script.append(&mut part);
                should_continue = false;
            },
        }
        Processed { should_continue, script, outcomes }
    }
}

/// Taking a key's loan out of a table without double keys leaves a table
/// without double keys that lacks the key and holds every other key's loan
/// as before.
pub proof fn lemma_without(loans: Seq<(String, SoundSourceLoan)>, key: Seq<char>)
    requires
        distinct_keys(loans),
    ensures
        distinct_keys(without(loans, key)),
        position(without(loans, key), key, 0) is None,
        forall|j: int| 0 <= j < without(loans, key).len() ==> without(loans, key)[j].0@ != key,
{
    lemma_position(loans, key, 0);
    lemma_absent(without(loans, key), key, 0);
}

/// Where no entry from `from` on has the name, `position` finds none.
pub proof fn lemma_absent<T>(entries: Seq<(SoundName, T)>, name: Seq<char>, from: int)
    requires
        0 <= from,
        forall|j: int| from <= j < entries.len() ==> entries[j].0@ != name,
    ensures
        position(entries, name, from) is None,
    decreases entries.len() - from,
{
    if from < entries.len() {
        lemma_absent(entries, name, from + 1);
    }
}

} // verus!
