use howl::context::{create_sound_context, SoundContext};
use howl::device::{DeviceCommand, Voice};
use howl::engine::{Observed, SoundEngine, SoundEngineUpdate};
use howl::errors::{LoadError, LoadErrorReason, SoundEventError};
use howl::load::{LoadedSound, Sound};
use howl::source::SoundSourceLoan;
use howl::{DistanceModel, Listener, SoundEvent, Vec3f, ONE, ZERO};

fn context(statics: usize, streaming: usize) -> SoundContext {
    let mut c = create_sound_context(String::from("res"), String::from("ogg"), 1_000_000, 5000);
    c.create(statics, streaming);
    c
}

fn event(name: &str) -> SoundEvent {
    SoundEvent {
        name: String::from(name),
        position: Vec3f { x: ZERO, y: ZERO, z: ZERO },
        gain: ONE,
        pitch: ONE,
        attenuation: ONE,
        loop_sound: false,
    }
}

fn decoded() -> Option<Result<LoadedSound, LoadError>> {
    Some(Ok(LoadedSound::Static(Sound { data: vec![0; 500], sample_rate: 1000, channels: 1 })))
}

fn nothing_seen() -> Observed {
    Observed { static_stopped: vec![], streaming_stopped: vec![], loaded: vec![] }
}

fn seen(loaded: Vec<Option<Result<LoadedSound, LoadError>>>) -> Observed {
    Observed { static_stopped: vec![], streaming_stopped: vec![], loaded }
}

fn render(sounds: Vec<SoundEvent>, persistent: Vec<(&str, SoundEvent)>) -> SoundEngineUpdate {
    SoundEngineUpdate::Render {
        master_gain: ONE,
        sounds,
        persistent_sounds: persistent.into_iter().map(|(k, e)| (String::from(k), e)).collect(),
        listener: Listener::default(),
    }
}

fn uploads(script: &[DeviceCommand]) -> usize {
    script.iter().filter(|c| matches!(c, DeviceCommand::Upload { .. })).count()
}

#[test]
fn a_new_engine_has_no_loans() {
    let engine = SoundEngine::new();
    assert!(engine.loans.is_empty());
}

#[test]
fn an_engine_keeps_the_time_it_was_made_at() {
    let engine = SoundEngine::started_at(1_234_567);
    assert_eq!(engine.last_render_time, 1_234_567);
    assert!(engine.loans.is_empty());
    let engine = SoundEngine::started_at(u64::MAX);
    assert_eq!(engine.last_render_time, u64::MAX);
}

#[test]
fn preload_loads_each_sound_and_goes_on_after_a_failure() {
    let mut c = context(1, 0);
    let mut engine = SoundEngine::new();
    let update = SoundEngineUpdate::Preload(vec![
        (String::from("teleport"), ONE),
        (String::from("gone"), ONE),
        (String::from("water"), 0.5f32.to_bits()),
    ]);
    let missing = LoadError {
        path: String::from("res/gone.ogg"),
        reason: LoadErrorReason::FileReadError(String::from("not found")),
    };
    let observed = seen(vec![decoded(), Some(Err(missing.clone())), decoded()]);
    assert_eq!(engine.load_requests(&c, &update, &observed), vec![true, true, true]);
    let r = engine.process(&mut c, &update, &observed);
    assert!(r.should_continue);
    assert_eq!(r.outcomes, vec![Ok(None), Err(SoundEventError::LoadSoundError(missing)), Ok(None)]);
    assert_eq!(
        r.script,
        vec![
            DeviceCommand::Upload { name: String::from("teleport") },
            DeviceCommand::Upload { name: String::from("water") },
        ]
    );
    assert!(c.is_loaded(&String::from("teleport")));
    assert!(!c.is_loaded(&String::from("gone")));
    assert_eq!(c.get(&String::from("water")).unwrap().gain, 0.5f32.to_bits());
    assert_eq!(engine.load_requests(&c, &update, &observed), vec![false, true, false]);
}

#[test]
fn preload_then_render_plays_from_the_cache() {
    let mut c = context(4, 1);
    let mut engine = SoundEngine::new();
    let preload = SoundEngineUpdate::Preload(vec![(String::from("water"), ONE)]);
    let r = engine.process(&mut c, &preload, &seen(vec![decoded()]));
    assert_eq!(uploads(&r.script), 1);
    let tick = render(vec![event("water")], vec![]);
    assert_eq!(engine.load_requests(&c, &tick, &nothing_seen()), vec![false]);
    let r = engine.process(&mut c, &tick, &nothing_seen());
    assert_eq!(r.outcomes, vec![Ok(Some(SoundSourceLoan { source_id: 0, event_id: 0, streaming: false }))]);
    assert_eq!(uploads(&r.script), 0);
    assert_eq!(c.buffers.len(), 1);
}

#[test]
fn one_static_voice_serves_one_of_two_transient_sounds() {
    let mut c = context(1, 0);
    let mut engine = SoundEngine::new();
    let tick = render(vec![event("water"), event("water")], vec![]);
    let r = engine.process(&mut c, &tick, &seen(vec![decoded(), decoded()]));
    assert!(r.should_continue);
    assert_eq!(
        r.outcomes,
        vec![
            Ok(Some(SoundSourceLoan { source_id: 0, event_id: 0, streaming: false })),
            Err(SoundEventError::NoFreeStaticSource),
        ]
    );
    assert_eq!(uploads(&r.script), 1);
}

#[test]
fn clear_makes_the_next_render_load_again() {
    let mut c = context(2, 0);
    let mut engine = SoundEngine::new();
    let tick = render(vec![event("water")], vec![("music", event("theme"))]);
    let r = engine.process(&mut c, &tick, &seen(vec![decoded(), decoded()]));
    assert_eq!(uploads(&r.script), 2);
    assert_eq!(engine.load_requests(&c, &tick, &nothing_seen()), vec![false, false]);
    let r = engine.process(&mut c, &SoundEngineUpdate::Clear, &nothing_seen());
    assert!(r.should_continue);
    assert!(r.outcomes.is_empty());
    assert_eq!(r.script.last(), Some(&DeviceCommand::ClearBuffers));
    assert!(r.script[..r.script.len() - 1].iter().all(|c| matches!(c, DeviceCommand::Release(_))));
    assert_eq!(r.script.len(), 3);
    assert!(c.buffers.is_empty());
    assert_eq!(engine.load_requests(&c, &tick, &nothing_seen()), vec![true, true]);
    let r = engine.process(&mut c, &tick, &nothing_seen());
    assert_eq!(r.outcomes, vec![Err(SoundEventError::NoSounds), Err(SoundEventError::NoSounds)]);
    assert!(r.script.iter().all(|c| !matches!(c, DeviceCommand::BindBuffer { .. })));
    let r = engine.process(&mut c, &tick, &seen(vec![decoded(), decoded()]));
    assert_eq!(uploads(&r.script), 2);
    assert!(r.outcomes.iter().all(|o| matches!(o, Ok(Some(_)))));
}

#[test]
fn stop_clears_and_ends_the_engine() {
    let mut c = context(1, 1);
    let mut engine = SoundEngine::new();
    engine.process(&mut c, &render(vec![event("water")], vec![]), &seen(vec![decoded()]));
    let r = engine.process(&mut c, &SoundEngineUpdate::Stop, &nothing_seen());
    assert!(!r.should_continue);
    assert_eq!(
        r.script,
        vec![
            DeviceCommand::Release(Voice::Static(0)),
            DeviceCommand::Release(Voice::Streaming(0)),
            DeviceCommand::ClearBuffers,
        ]
    );
    assert!(c.buffers.is_empty());
    assert!(c.sources.sources[0].current_binding.is_none());
}

#[test]
fn the_distance_model_is_recorded_and_sent() {
    let mut c = context(0, 0);
    let mut engine = SoundEngine::new();
    let r = engine.process(&mut c, &SoundEngineUpdate::DistanceModel(DistanceModel::Inverse), &nothing_seen());
    assert!(r.should_continue);
    assert_eq!(r.script, vec![DeviceCommand::SetDistanceModel(DistanceModel::Inverse)]);
    assert_eq!(c.distance_model, DistanceModel::Inverse);
}

#[test]
fn gain_and_listener_are_sent_only_when_they_change() {
    let mut c = context(0, 0);
    let mut engine = SoundEngine::new();
    let r = engine.process(&mut c, &render(vec![], vec![]), &nothing_seen());
    assert!(r.script.is_empty());
    let half = 0.5f32.to_bits();
    let moved = Listener { position: Vec3f { x: ONE, y: ZERO, z: ZERO }, ..Listener::default() };
    let tick = SoundEngineUpdate::Render {
        master_gain: half,
        sounds: vec![],
        persistent_sounds: vec![],
        listener: moved,
    };
    let r = engine.process(&mut c, &tick, &nothing_seen());
    assert_eq!(r.script, vec![DeviceCommand::SetGain(half), DeviceCommand::SetListener(moved)]);
    assert_eq!(c.master_gain, half);
    assert_eq!(c.listener, moved);
    let r = engine.process(&mut c, &tick, &nothing_seen());
    assert!(r.script.is_empty());
}

#[test]
fn a_persistent_sound_stays_on_its_voice_across_ticks() {
    let mut c = context(2, 1);
    let mut engine = SoundEngine::new();
    let tick = render(vec![], vec![("music", event("theme"))]);
    let stream = seen(vec![Some(Ok(LoadedSound::Streaming))]);
    assert_eq!(engine.load_requests(&c, &tick, &nothing_seen()), vec![true]);
    let r = engine.process(&mut c, &tick, &stream);
    let loan = SoundSourceLoan { source_id: 0, event_id: 0, streaming: true };
    assert_eq!(r.outcomes, vec![Ok(Some(loan))]);
    assert_eq!(engine.loans, vec![(String::from("music"), loan)]);
    for _ in 0..5 {
        let playing = Observed { static_stopped: vec![false, false], streaming_stopped: vec![false], loaded: vec![] };
        assert_eq!(engine.load_requests(&c, &tick, &playing), vec![false]);
        let r = engine.process(&mut c, &tick, &playing);
        assert_eq!(r.outcomes, vec![Ok(Some(loan))]);
        assert_eq!(
            r.script,
            vec![
                DeviceCommand::Refill { source_id: 0 },
                DeviceCommand::Apply { voice: Voice::Streaming(0), event: event("theme") },
            ]
        );
        assert_eq!(engine.loans, vec![(String::from("music"), loan)]);
        assert_eq!(c.sources.for_loan(loan), Some(Voice::Streaming(0)));
    }
    assert_eq!(c.sources.next_event, 1);
}

#[test]
fn a_persistent_sound_left_out_of_a_tick_keeps_playing() {
    let mut c = context(1, 0);
    let mut engine = SoundEngine::new();
    let mut looped = event("hum");
    looped.loop_sound = true;
    let r = engine.process(&mut c, &render(vec![], vec![("hum", looped)]), &seen(vec![decoded()]));
    let loan = r.outcomes[0].clone().unwrap().unwrap();
    let all_stopped = Observed { static_stopped: vec![true], streaming_stopped: vec![], loaded: vec![] };
    let r = engine.process(&mut c, &render(vec![event("hum")], vec![]), &all_stopped);
    assert_eq!(r.outcomes, vec![Err(SoundEventError::NoFreeStaticSource)]);
    assert!(r.script.is_empty());
    assert_eq!(engine.loans, vec![(String::from("hum"), loan)]);
    assert_eq!(c.sources.for_loan(loan), Some(Voice::Static(0)));
}

#[test]
fn a_finished_persistent_sound_gets_a_new_loan() {
    let mut c = context(2, 0);
    let mut engine = SoundEngine::new();
    let tick = render(vec![], vec![("ping", event("ping"))]);
    let r = engine.process(&mut c, &tick, &seen(vec![decoded()]));
    let first = r.outcomes[0].clone().unwrap().unwrap();
    let stopped = Observed { static_stopped: vec![true, false], streaming_stopped: vec![], loaded: vec![] };
    assert_eq!(engine.load_requests(&c, &tick, &stopped), vec![false]);
    let r = engine.process(&mut c, &tick, &stopped);
    let second = r.outcomes[0].clone().unwrap().unwrap();
    assert_eq!(second, SoundSourceLoan { source_id: 0, event_id: 1, streaming: false });
    assert_eq!(r.script[0], DeviceCommand::Release(Voice::Static(0)));
    assert_eq!(c.sources.for_loan(first), None);
    assert_eq!(c.sources.for_loan(second), Some(Voice::Static(0)));
    assert_eq!(engine.loans, vec![(String::from("ping"), second)]);
}

#[test]
fn a_persistent_sound_that_fails_loses_its_loan() {
    let mut c = context(1, 0);
    let mut engine = SoundEngine::new();
    let tick = render(vec![], vec![("ping", event("ping"))]);
    engine.process(&mut c, &tick, &seen(vec![decoded()]));
    assert_eq!(engine.loans.len(), 1);
    engine.process(&mut c, &SoundEngineUpdate::Clear, &nothing_seen());
    assert_eq!(engine.loans.len(), 1);
    let r = engine.process(&mut c, &tick, &nothing_seen());
    assert_eq!(r.outcomes, vec![Err(SoundEventError::NoSounds)]);
    assert!(engine.loans.is_empty());
}

#[test]
fn a_finished_streaming_sound_is_asked_for_again() {
    let mut c = context(0, 1);
    let mut engine = SoundEngine::new();
    let tick = render(vec![], vec![("music", event("theme"))]);
    engine.process(&mut c, &tick, &seen(vec![Some(Ok(LoadedSound::Streaming))]));
    let stopped = Observed { static_stopped: vec![], streaming_stopped: vec![true], loaded: vec![] };
    assert_eq!(engine.load_requests(&c, &tick, &stopped), vec![true]);
    let playing = Observed { static_stopped: vec![], streaming_stopped: vec![false], loaded: vec![] };
    assert_eq!(engine.load_requests(&c, &tick, &playing), vec![false]);
}

#[test]
fn render_reclaims_refills_tunes_and_plays_in_that_order() {
    let mut c = context(1, 1);
    let mut engine = SoundEngine::new();
    let mut theme = event("theme");
    theme.loop_sound = true;
    engine.process(
        &mut c,
        &render(vec![event("water")], vec![("music", theme.clone())]),
        &seen(vec![decoded(), Some(Ok(LoadedSound::Streaming))]),
    );
    let half = 0.5f32.to_bits();
    let tick = SoundEngineUpdate::Render {
        master_gain: half,
        sounds: vec![event("water")],
        persistent_sounds: vec![(String::from("music"), theme.clone())],
        listener: Listener::default(),
    };
    let observed = Observed { static_stopped: vec![true], streaming_stopped: vec![true], loaded: vec![] };
    let r = engine.process(&mut c, &tick, &observed);
    assert_eq!(
        r.script,
        vec![
            DeviceCommand::Release(Voice::Static(0)),
            DeviceCommand::Refill { source_id: 0 },
            DeviceCommand::SetGain(half),
            DeviceCommand::BindBuffer { source_id: 0, name: String::from("water") },
            DeviceCommand::Apply { voice: Voice::Static(0), event: event("water") },
            DeviceCommand::Play(Voice::Static(0)),
            DeviceCommand::Apply { voice: Voice::Streaming(0), event: theme },
        ]
    );
}

#[test]
fn transient_failures_do_not_hold_up_the_rest() {
    let mut c = context(2, 0);
    let mut engine = SoundEngine::new();
    let broken = LoadError {
        path: String::from("res/a.ogg"),
        reason: LoadErrorReason::ReadOggError(String::from("bad")),
    };
    let tick = render(vec![event("a"), event("b"), event("c")], vec![("d", event("d"))]);
    let observed = seen(vec![Some(Err(broken.clone())), None, decoded(), decoded()]);
    let r = engine.process(&mut c, &tick, &observed);
    assert_eq!(
        r.outcomes,
        vec![
            Err(SoundEventError::LoadSoundError(broken)),
            Err(SoundEventError::NoSounds),
            Ok(Some(SoundSourceLoan { source_id: 0, event_id: 0, streaming: false })),
            Ok(Some(SoundSourceLoan { source_id: 1, event_id: 1, streaming: false })),
        ]
    );
    assert_eq!(engine.loans, vec![(String::from("d"), SoundSourceLoan { source_id: 1, event_id: 1, streaming: false })]);
}

#[test]
fn no_two_voices_share_an_identity_over_many_ticks() {
    let mut c = context(3, 2);
    let mut engine = SoundEngine::new();
    for round in 0..12u32 {
        let tick = render(
            vec![event("a"), event("b")],
            vec![("music", event("theme")), ("hum", event("a"))],
        );
        let observed = Observed {
            static_stopped: vec![round % 2 == 0, round % 3 == 0, true],
            streaming_stopped: vec![round % 4 == 0, false],
            loaded: vec![decoded(), decoded(), Some(Ok(LoadedSound::Streaming)), decoded()],
        };
        engine.process(&mut c, &tick, &observed);
        if round == 7 {
            engine.process(&mut c, &SoundEngineUpdate::Clear, &nothing_seen());
        }
        let mut ids: Vec<u64> = Vec::new();
        ids.extend(c.sources.sources.iter().filter_map(|s| s.current_binding).map(|b| b.event_id));
        ids.extend(c.sources.streaming.iter().filter_map(|s| s.current_binding).map(|b| b.event_id));
        let mut unique = ids.clone();
        unique.sort();
        unique.dedup();
        assert_eq!(unique.len(), ids.len());
        let mut keys: Vec<&String> = engine.loans.iter().map(|(k, _)| k).collect();
        keys.sort();
        keys.dedup();
        assert_eq!(keys.len(), engine.loans.len());
    }
}
