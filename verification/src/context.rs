//! The playback context: the voice pool, the cache of decoded sounds, and
//! what was last set on the device.
use vstd::prelude::*;
use crate::{DistanceModel, Gain, Listener, LoadResult, PreloadResult, SoundEvent, SoundEventResult, SoundName, ONE};
use crate::device::{DeviceCommand, Voice};
use crate::errors::{LoadError, LoadErrorReason, PreloadError, SoundEventError};
use crate::load::{duration_of, LoadedSound};
use crate::source::{Pool, SoundSource, SoundSourceLoan, Sources, StreamAction, StreamEvent, StreamingVoice};

verus! {

/// What the cache knows of a decoded sound that is on the device: the gain
/// it was loaded with and its duration in milliseconds.
#[derive(Clone, Copy, Debug, PartialEq, Eq)]
pub struct SoundBuffer {
    pub gain: Gain,
    pub duration: u64,
}

/// The playback context.
#[derive(Debug)]
pub struct SoundContext {
    /// The directory of the sound files.
    pub path: String,
    /// The extension of the sound files.
    pub extension: String,
    pub sources: Sources,
    /// The cache, by name; no name stands in it twice.
    pub buffers: Vec<(SoundName, SoundBuffer)>,
    /// A file larger than this many bytes is streamed.
    pub stream_above_file_size: u64,
    /// How many milliseconds a streaming voice keeps queued.
    pub stream_buffer_duration: u64,
    pub master_gain: Gain,
    pub distance_model: DistanceModel,
    pub listener: Listener,
}

/// The context as contracts see it.
pub struct ContextState {
    pub path: String,
    pub extension: String,
    pub pool: Pool,
    pub buffers: Seq<(SoundName, SoundBuffer)>,
    pub stream_above_file_size: u64,
    pub stream_buffer_duration: u64,
    pub master_gain: Gain,
    pub distance_model: DistanceModel,
    pub listener: Listener,
}

/// What playing an event comes to: the context afterwards, the loan or the
/// reason why there is none, and the script for the device.
pub struct Played {
    pub state: ContextState,
    pub result: SoundEventResult<SoundSourceLoan>,
    pub script: Seq<DeviceCommand>,
}

/// What loading a sound comes to: the context afterwards, the error if there
/// is one, and the script for the device.
pub struct Loaded {
    pub state: ContextState,
    pub result: PreloadResult<()>,
    pub script: Seq<DeviceCommand>,
}

/// The place of the first entry at or after `from` that has this name.
pub open spec fn position<T>(buffers: Seq<(SoundName, T)>, name: Seq<char>, from: int) -> Option<int>
    decreases buffers.len() - from,
{
    if from < 0 || from >= buffers.len() {
        None
    } else if buffers[from].0@ == name {
        Some(from)
    } else {
        position(buffers, name, from + 1)
    }
}

/// The script that starts a static voice on the buffer of the event's name.
pub open spec fn start_static(loan: SoundSourceLoan, event: SoundEvent) -> Seq<DeviceCommand> {
    seq![
        DeviceCommand::BindBuffer { source_id: loan.source_id, name: event.name },
        DeviceCommand::Apply { voice: loan.voice(), event },
        DeviceCommand::Play(loan.voice()),
    ]
}

/// The script that starts a streaming voice on the stream that was opened
/// for the event's name.
pub open spec fn start_streaming(loan: SoundSourceLoan, event: SoundEvent) -> Seq<DeviceCommand> {
    seq![
        DeviceCommand::AttachStream { source_id: loan.source_id, name: event.name },
        DeviceCommand::Refill { source_id: loan.source_id },
        DeviceCommand::Apply { voice: loan.voice(), event },
        DeviceCommand::Play(loan.voice()),
    ]
}

impl ContextState {
    /// The context's invariant: that of the pool, and no name twice in the
    /// cache.
    pub open spec fn wf(self) -> bool {
        &&& self.pool.wf()
        &&& forall|i: int, j: int|
            0 <= i < j < self.buffers.len() ==> self.buffers[i].0@ != self.buffers[j].0@
    }

    /// Whether the cache holds a sound of this name.
    pub open spec fn cached(self, name: Seq<char>) -> bool {
        position(self.buffers, name, 0) is Some
    }

    /// What the cache holds under this name.
    pub open spec fn buffer(self, name: Seq<char>) -> Option<SoundBuffer> {
        match position(self.buffers, name, 0) {
            Some(i) => Some(self.buffers[i].1),
            None => None,
        }
    }

    /// Whether an event of this name, played with this loan, needs the sound
    /// to be handed in: it does unless the loan is valid or the cache holds
    /// the sound.
    pub open spec fn needs_load(self, name: Seq<char>, loan: Option<SoundSourceLoan>) -> bool {
        !(loan matches Some(l) && self.pool.loan_valid(l)) && !self.cached(name)
    }

    /// Playing `event` on a static voice whose buffer is in `buffers`, with
    /// `upload` run before the voice is started: the first free static voice
    /// is lent and takes the event; where none is free the event gets none.
    pub open spec fn played_static(
        self,
        event: SoundEvent,
        buffers: Seq<(SoundName, SoundBuffer)>,
        upload: Seq<DeviceCommand>,
    ) -> Played {
        match self.pool.next_loan(false) {
            Some(loan) => Played {
                state: ContextState {
                    pool: self.pool.loaned(false).assigned(loan, event.loop_sound),
                    buffers,
                    ..self
                },
                result: Ok(loan),
                script: upload + start_static(loan, event),
            },
            None => Played {
                state: ContextState { buffers, ..self },
                result: Err(SoundEventError::NoFreeStaticSource),
                script: upload,
            },
        }
    }

    /// Playing `event` on a streaming voice.
    pub open spec fn played_streaming(self, event: SoundEvent) -> Played {
        match self.pool.next_loan(true) {
            Some(loan) => Played {
                state: ContextState {
                    pool: self.pool.loaned(true).attached(loan.source_id as int).assigned(
                        loan,
                        event.loop_sound,
                    ),
                    ..self
                },
                result: Ok(loan),
                script: start_streaming(loan, event),
            },
            None => Played {
                state: self,
                result: Err(SoundEventError::NoFreeStreamingSource),
                script: Seq::empty(),
            },
        }
    }

    /// An event that fails before anything is changed.
    pub open spec fn refused(self, error: SoundEventError) -> Played {
        Played { state: self, result: Err(error), script: Seq::empty() }
    }

    /// Playing `event`. With a valid loan the event is assigned to the
    /// loan's voice, which goes on playing. Else, with the sound in the
    /// cache, a static voice is lent and started on it. Else what was
    /// handed in decides: a decoded sound is put into the cache (with gain
    /// one) and played on a static voice, a stream is played on a streaming
    /// voice, a failed load is passed on, and nothing handed in is an error
    /// of its own.
    pub open spec fn played(
        self,
        event: SoundEvent,
        loan: Option<SoundSourceLoan>,
        loaded: Option<LoadResult<LoadedSound>>,
    ) -> Played {
        if loan matches Some(l) && self.pool.loan_valid(l) {
            Played {
                state: ContextState { pool: self.pool.assigned(loan->0, event.loop_sound), ..self },
                result: Ok(loan->0),
                script: seq![DeviceCommand::Apply { voice: loan->0.voice(), event }],
            }
        } else if self.cached(event.name@) {
            self.played_static(event, self.buffers, Seq::empty())
        } else {
            match loaded {
                None => self.refused(SoundEventError::NoSounds),
                Some(Err(e)) => self.refused(SoundEventError::LoadSoundError(e)),
                Some(Ok(LoadedSound::Streaming)) => self.played_streaming(event),
                Some(Ok(LoadedSound::Static(sound))) => if sound.channels > 2 {
                    self.refused(
                        SoundEventError::LoadSoundError(
                            LoadError { path: event.name, reason: LoadErrorReason::TooManyChannels },
                        ),
                    )
                } else {
                    self.played_static(
                        event,
                        self.buffers.push(
                            (
                                event.name,
                                SoundBuffer {
                                    gain: ONE,
                                    duration: duration_of(sound.data@.len(), sound.sample_rate),
                                },
                            ),
                        ),
                        seq![DeviceCommand::Upload { name: event.name }],
                    )
                },
            }
        }
    }

    /// A load that fails before anything is changed.
    pub open spec fn unloaded(self, name: SoundName, reason: LoadErrorReason) -> Loaded {
        Loaded {
            state: self,
            result: Err(PreloadError::LoadError(LoadError { path: name, reason })),
            script: Seq::empty(),
        }
    }

    /// Loading the sound `name` with `gain`. A sound that the cache holds
    /// is left as it is. Else a decoded sound of at most two channels is put
    /// into the cache and uploaded; one of more channels is refused; a
    /// failed load is passed on; and anything else handed in counts as no
    /// file.
    pub open spec fn loaded_sound(self, name: SoundName, gain: Gain, loaded: Option<LoadResult<LoadedSound>>) -> Loaded {
        if self.cached(name@) {
            Loaded { state: self, result: Ok(()), script: Seq::empty() }
        } else {
            match loaded {
                Some(Err(e)) => Loaded {
                    state: self,
                    result: Err(PreloadError::LoadError(e)),
                    script: Seq::empty(),
                },
                Some(Ok(LoadedSound::Static(sound))) => if sound.channels > 2 {
                    self.unloaded(name, LoadErrorReason::TooManyChannels)
                } else {
                    Loaded {
                        state: ContextState {
                            buffers: self.buffers.push(
                                (
                                    name,
                                    SoundBuffer {
                                        gain,
                                        duration: duration_of(sound.data@.len(), sound.sample_rate),
                                    },
                                ),
                            ),
                            ..self
                        },
                        result: Ok(()),
                        script: seq![DeviceCommand::Upload { name }],
                    }
                },
                _ => self.unloaded(name, LoadErrorReason::FileDoesntExist),
            }
        }
    }

    /// The refill commands for the first `n` streaming voices: one for each
    /// that is bound, by place.
    pub open spec fn refills(self, n: int) -> Seq<DeviceCommand>
        decreases n,
    {
        if n <= 0 {
            Seq::empty()
        } else if self.pool.binding(Voice::Streaming((n - 1) as usize)) is Some {
            self.refills(n - 1).push(DeviceCommand::Refill { source_id: (n - 1) as usize })
        } else {
            self.refills(n - 1)
        }
    }

    /// The context after a purge: every voice released and the cache empty.
    pub open spec fn purged(self) -> ContextState {
        ContextState { pool: self.pool.purged(), buffers: Seq::empty(), ..self }
    }

    /// The script of a purge: the voices are released first, then the
    /// buffers are dropped.
    pub open spec fn purge_script(self) -> Seq<DeviceCommand> {
        self.pool.purge_script().push(DeviceCommand::ClearBuffers)
    }
}

impl View for SoundContext {
    type V = ContextState;

    open spec fn view(&self) -> ContextState {
        ContextState {
            path: self.path,
            extension: self.extension,
            pool: self.sources@,
            buffers: self.buffers@,
            stream_above_file_size: self.stream_above_file_size,
            stream_buffer_duration: self.stream_buffer_duration,
            master_gain: self.master_gain,
            distance_model: self.distance_model,
            listener: self.listener,
        }
    }
}

/// A context without voices and with an empty cache, for the sound files
/// `<path>/<name>.<extension>`; the master gain is one, nothing fades with
/// distance, and the listener is at rest.
pub fn create_sound_context(
    path: String,
    extension: String,
    stream_above_file_size: u64,
    stream_buffer_duration: u64,
) -> (r: SoundContext)
    ensures
        r@.path == path,
        r@.extension == extension,
        r@.pool.next_event == 0,
        r@.pool.sources.len() == 0,
        r@.pool.streaming.len() == 0,
        r@.buffers.len() == 0,
        r@.stream_above_file_size == stream_above_file_size,
        r@.stream_buffer_duration == stream_buffer_duration,
        r@.master_gain == ONE,
        r@.distance_model == DistanceModel::Unattenuated,
        r@.listener == Listener::default_value(),
        r.wf(),
{
    SoundContext {
        path,
        extension,
        sources: Sources::new(),
        buffers: Vec::new(),
        stream_above_file_size,
        stream_buffer_duration,
        master_gain: ONE,
        distance_model: DistanceModel::Unattenuated,
        listener: Listener::default(),
    }
}

impl SoundContext {
    /// The context's invariant, on the context itself.
    pub open spec fn wf(&self) -> bool {
        self@.wf()
    }

    /// Records the master gain; the result sets it on the device.
    pub fn set_gain(&mut self, gain: Gain) -> (command: DeviceCommand)
        ensures
            final(self)@ == (ContextState { master_gain: gain, ..old(self)@ }),
            command == DeviceCommand::SetGain(gain),
    {
        self.master_gain = gain;
        DeviceCommand::SetGain(gain)
    }

    /// Adds `static_count` static and `streaming_count` streaming voices,
    /// each bound to nothing.
    pub fn create(&mut self, static_count: usize, streaming_count: usize)
        ensures
            final(self)@ == (ContextState {
                pool: Pool {
                    next_event: old(self)@.pool.next_event,
                    sources: old(self)@.pool.sources + Seq::new(
                        static_count as nat,
                        |i: int| SoundSource { current_binding: None },
                    ),
                    streaming: old(self)@.pool.streaming + Seq::new(
                        streaming_count as nat,
                        |i: int| StreamingVoice::released(),
                    ),
                },
                ..old(self)@
            }),
            old(self).wf() ==> final(self).wf(),
    {
        let ghost before = self@;
        let mut i: usize = 0;
        while i < static_count
            invariant
                i <= static_count,
                self@ == (ContextState {
                    pool: Pool {
                        sources: before.pool.sources + Seq::new(
                            i as nat,
                            |k: int| SoundSource { current_binding: None },
                        ),
                        ..before.pool
                    },
                    ..before
                }),
                before.wf() ==> self.wf(),
            decreases static_count - i,
        {
            self.sources.add_static();
            proof {
                assert(self@.pool.sources =~= before.pool.sources + Seq::new(
                    (i + 1) as nat,
                    |k: int| SoundSource { current_binding: None },
                ));
            }
            i = i + 1;
        }
        let ghost middle = self@;
        let mut k: usize = 0;
        while k < streaming_count
            invariant
                k <= streaming_count,
                middle.buffers == before.buffers,
                self@ == (ContextState {
                    pool: Pool {
                        streaming: before.pool.streaming + Seq::new(
                            k as nat,
                            |j: int| StreamingVoice::released(),
                        ),
                        ..middle.pool
                    },
                    ..middle
                }),
                before.wf() ==> self.wf(),
            decreases streaming_count - k,
        {
            self.sources.add_streaming();
            proof {
                assert(self@.pool.streaming =~= before.pool.streaming + Seq::new(
                    (k + 1) as nat,
                    |j: int| StreamingVoice::released(),
                ));
            }
            k = k + 1;
        }
    }

    /// Records the listener; the result sets it on the device.
    pub fn set_listener(&mut self, listener: Listener) -> (command: DeviceCommand)
        ensures
            final(self)@ == (ContextState { listener, ..old(self)@ }),
            command == DeviceCommand::SetListener(listener),
    {
        self.listener = listener;
        DeviceCommand::SetListener(listener)
    }

    /// Releases every voice and empties the cache. In the script the voices
    /// are released before the buffers are dropped, so that no voice is left
    /// with a buffer that is gone.
    pub fn purge(&mut self) -> (script: Vec<DeviceCommand>)
        ensures
            final(self)@ == old(self)@.purged(),
            script@ == old(self)@.purge_script(),
            final(self).wf(),
    {
        let mut script = self.sources.purge();
        self.buffers.clear();
        script.push(DeviceCommand::ClearBuffers);
        script
    }

    /// The file of the sound `name`: `<path>/<name>.<extension>`.
    pub fn full_path(&self, name: &String) -> (r: String)
        ensures
            r@ == self.path@ + "/"@ + name@ + "."@ + self.extension@,
    {
        let mut r = self.path.clone();
        r.append("/");
        r.append(name.as_str());
        r.append(".");
        r.append(self.extension.as_str());
        r
    }

    /// Records the distance model; the result sets it on the device.
    pub fn set_distace_model(&mut self, distance_model: DistanceModel) -> (command: DeviceCommand)
        ensures
            final(self)@ == (ContextState { distance_model, ..old(self)@ }),
            command == DeviceCommand::SetDistanceModel(distance_model),
    {
        self.distance_model = distance_model;
        DeviceCommand::SetDistanceModel(distance_model)
    }

    /// The command that stops the voice of a valid loan; for a stale loan
    /// there is none. The voice stays bound.
    pub fn stop(&self, loan: SoundSourceLoan) -> (command: Option<DeviceCommand>)
        ensures
            command == if self@.pool.loan_valid(loan) {
                Some(DeviceCommand::Stop(loan.voice()))
            } else {
                None
            },
    {
        match self.sources.for_loan(loan) {
            Some(voice) => Some(DeviceCommand::Stop(voice)),
            None => None,
        }
    }

    /// Where the cache holds the sound `name`.
    fn find(&self, name: &String) -> (r: Option<usize>)
        ensures
            match r {
                Some(i) => position(self.buffers@, name@, 0) == Some(i as int) && i < self.buffers@.len(),
                None => position(self.buffers@, name@, 0) is None,
            },
    {
        let mut i: usize = 0;
        while i < self.buffers.len()
            invariant
                i <= self.buffers.len(),
                position(self.buffers@, name@, 0) == position(self.buffers@, name@, i as int),
            decreases self.buffers.len() - i,
        {
            if self.buffers[i].0 == *name {
                return Some(i);
            }
            i = i + 1;
        }
        None
    }

    /// Whether the cache holds the sound `name`.
    pub fn is_loaded(&self, name: &String) -> (r: bool)
        ensures
            r == self@.cached(name@),
    {
        self.find(name).is_some()
    }

    /// What the cache holds under `name`.
    pub fn get(&self, name: &String) -> (r: Option<SoundBuffer>)
        ensures
            r == self@.buffer(name@),
    {
        match self.find(name) {
            Some(i) => Some(self.buffers[i].1),
            None => None,
        }
    }

    /// Whether `play_event` will need the sound `name` handed in when it is
    /// called with `loan`.
    pub fn needs_load(&self, name: &String, loan: Option<SoundSourceLoan>) -> (r: bool)
        ensures
            r == self@.needs_load(name@, loan),
    {
        let valid = match loan {
            Some(l) => self.sources.for_loan(l).is_some(),
            None => false,
        };
        !valid && !self.is_loaded(name)
    }

    /// Loads the sound `name` with `gain` from what was found under it.
    /// Nothing is needed, and nothing is read of `loaded`, where the cache
    /// holds the sound already.
    pub fn load_sound(&mut self, name: &String, gain: Gain, loaded: &Option<LoadResult<LoadedSound>>) -> (r: (
        PreloadResult<()>,
        Vec<DeviceCommand>,
    ))
        ensures
            final(self)@ == old(self)@.loaded_sound(*name, gain, *loaded).state,
            r.0 == old(self)@.loaded_sound(*name, gain, *loaded).result,
            r.1@ == old(self)@.loaded_sound(*name, gain, *loaded).script,
            old(self).wf() ==> final(self).wf(),
    {
        let mut script: Vec<DeviceCommand> = Vec::new();
        if self.is_loaded(name) {
            return (Ok(()), script);
        }
        match loaded {
            Some(Err(e)) => (Err(PreloadError::LoadError(e.clone())), script),
            Some(Ok(LoadedSound::Static(sound))) => {
                if sound.channels > 2 {
                    let error = LoadError { path: name.clone(), reason: LoadErrorReason::TooManyChannels };
                    (Err(PreloadError::LoadError(error)), script)
                } else {
                    proof {
                        lemma_position(self.buffers@, name@, 0);
                    }
                    self.buffers.push((name.clone(), SoundBuffer { gain, duration: sound.duration() }));
                    script.push(DeviceCommand::Upload { name: name.clone() });
                    proof {
                        assert(script@ =~= seq![DeviceCommand::Upload { name: *name }]);
                    }
                    (Ok(()), script)
                }
            },
            _ => {
                let error = LoadError { path: name.clone(), reason: LoadErrorReason::FileDoesntExist };
                (Err(PreloadError::LoadError(error)), script)
            },
        }
    }

    /// Lends a static voice to `event`, whose buffer is in the cache or is
    /// put there by `script` as it stands, and adds to `script` what starts
    /// the voice.
    fn play_static(&mut self, sound_event: SoundEvent, script: &mut Vec<DeviceCommand>) -> (r:
        SoundEventResult<SoundSourceLoan>)
        ensures
            final(self)@ == old(self)@.played_static(sound_event, old(self)@.buffers, old(script)@).state,
            r == old(self)@.played_static(sound_event, old(self)@.buffers, old(script)@).result,
            final(script)@ == old(self)@.played_static(
                sound_event,
                old(self)@.buffers,
                old(script)@,
            ).script,
            old(self).wf() ==> final(self).wf(),
    {
        match self.sources.loan_next_free_static() {
            Some(loan) => {
                self.sources.assign_event(loan, sound_event.loop_sound);
                script.push(
                    DeviceCommand::BindBuffer { source_id: loan.source_id, name: sound_event.name.clone() },
                );
                script.push(DeviceCommand::Apply { voice: loan.to_voice(), event: sound_event });
                script.push(DeviceCommand::Play(loan.to_voice()));
                proof {
                    assert(final(script)@ =~= old(script)@ + start_static(loan, sound_event));
                }
                Ok(loan)
            },
            None => Err(SoundEventError::NoFreeStaticSource),
        }
    }

    /// Plays `sound_event`. `loan` is the loan under which the event played
    /// before, if it did; `loaded` is what was found under the event's name,
    /// and is read only where `needs_load` says so. The result is the loan
    /// under which the event plays now, or the reason why it does not, and
    /// the script for the device.
    pub fn play_event(
        &mut self,
        sound_event: SoundEvent,
        loan: Option<SoundSourceLoan>,
        loaded: &Option<LoadResult<LoadedSound>>,
    ) -> (r: (SoundEventResult<SoundSourceLoan>, Vec<DeviceCommand>))
        ensures
            final(self)@ == old(self)@.played(sound_event, loan, *loaded).state,
            r.0 == old(self)@.played(sound_event, loan, *loaded).result,
            r.1@ == old(self)@.played(sound_event, loan, *loaded).script,
            old(self).wf() ==> final(self).wf(),
    {
        let mut script: Vec<DeviceCommand> = Vec::new();
        if let Some(l) = loan {
            if self.sources.assign_event(l, sound_event.loop_sound) {
                script.push(DeviceCommand::Apply { voice: l.to_voice(), event: sound_event });
                proof {
                    assert(script@ =~= seq![DeviceCommand::Apply { voice: l.voice(), event: sound_event }]);
                }
                return (Ok(l), script);
            }
        }
        if self.is_loaded(&sound_event.name) {
            let result = self.play_static(sound_event, &mut script);
            proof {
                assert(script@ =~= old(self)@.played(sound_event, loan, *loaded).script);
            }
            return (result, script);
        }
        match loaded {
            None => (Err(SoundEventError::NoSounds), script),
            Some(Err(e)) => (Err(SoundEventError::LoadSoundError(e.clone())), script),
            Some(Ok(LoadedSound::Streaming)) => {
                match self.sources.loan_next_free_streaming() {
                    Some(n) => {
                        self.sources.attach_stream(n.source_id);
                        self.sources.assign_event(n, sound_event.loop_sound);
                        script.push(
                            DeviceCommand::AttachStream {
                                source_id: n.source_id,
                                name: sound_event.name.clone(),
                            },
                        );
                        script.push(DeviceCommand::Refill { source_id: n.source_id });
                        script.push(DeviceCommand::Apply { voice: n.to_voice(), event: sound_event });
                        script.push(DeviceCommand::Play(n.to_voice()));
                        proof {
                            assert(script@ =~= start_streaming(n, sound_event));
                        }
                        (Ok(n), script)
                    },
                    None => (Err(SoundEventError::NoFreeStreamingSource), script),
                }
            },
            Some(Ok(LoadedSound::Static(sound))) => {
                if sound.channels > 2 {
                    let error = LoadError {
                        path: sound_event.name.clone(),
                        reason: LoadErrorReason::TooManyChannels,
                    };
                    return (Err(SoundEventError::LoadSoundError(error)), script);
                }
                proof {
                    lemma_position(self.buffers@, sound_event.name@, 0);
                }
                self.buffers.push(
                    (sound_event.name.clone(), SoundBuffer { gain: ONE, duration: sound.duration() }),
                );
                script.push(DeviceCommand::Upload { name: sound_event.name.clone() });
                proof {
                    assert(script@ =~= seq![DeviceCommand::Upload { name: sound_event.name }]);
                }
                let result = self.play_static(sound_event, &mut script);
                (result, script)
            },
        }
    }

    /// The script that has the queue of every bound streaming voice topped
    /// up: one refill for each, by place.
    pub fn ensure_buffers_queued(&self) -> (script: Vec<DeviceCommand>)
        ensures
            script@ == self@.refills(self@.pool.streaming.len() as int),
    {
        let mut script: Vec<DeviceCommand> = Vec::new();
        let mut i: usize = 0;
        while i < self.sources.streaming.len()
            invariant
                i <= self.sources.streaming.len(),
                script@ == self@.refills(i as int),
            decreases self.sources.streaming.len() - i,
        {
            if self.sources.streaming[i].current_binding.is_some() {
                script.push(DeviceCommand::Refill { source_id: i });
            }
            i = i + 1;
        }
        script
    }

    /// One step of the refill of streaming voice `index`, towards the
    /// context's `stream_buffer_duration`; see
    /// `Sources::ensure_buffers_queued`.
    pub fn refill(&mut self, index: usize, event: StreamEvent) -> (r: StreamAction)
        ensures
            final(self)@ == (ContextState {
                pool: old(self)@.pool.refilled(index as int, event, old(self)@.stream_buffer_duration).0,
                ..old(self)@
            }),
            r == old(self)@.pool.refilled(index as int, event, old(self)@.stream_buffer_duration).1,
            old(self).wf() ==> final(self).wf(),
    {
        self.sources.ensure_buffers_queued(index, event, self.stream_buffer_duration)
    }
}

/// Where `position` finds the name, the entry has it and no entry from
/// `from` up to it has; where it finds none, no entry from `from` on has it.
pub proof fn lemma_position<T>(buffers: Seq<(SoundName, T)>, name: Seq<char>, from: int)
    requires
        0 <= from,
    ensures
        match position(buffers, name, from) {
            Some(i) => from <= i < buffers.len() && buffers[i].0@ == name && forall|j: int|
                from <= j < i ==> buffers[j].0@ != name,
            None => forall|j: int| from <= j < buffers.len() ==> buffers[j].0@ != name,
        },
    decreases buffers.len() - from,
{
    if from < buffers.len() && buffers[from].0@ != name {
        lemma_position(buffers, name, from + 1);
    }
}

} // verus!
