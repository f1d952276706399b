use howl::device::{DeviceCommand, Voice};
use howl::source::{SoundBinding, SoundSourceLoan, Sources, StreamAction, StreamEvent, StreamState};

fn pool(statics: usize, streaming: usize) -> Sources {
    let mut sources = Sources::new();
    for _ in 0..statics {
        sources.add_static();
    }
    for _ in 0..streaming {
        sources.add_streaming();
    }
    sources
}

#[test]
fn new_pool_has_no_voices() {
    let mut sources = Sources::new();
    assert_eq!(sources.next_event, 0);
    assert!(sources.sources.is_empty());
    assert!(sources.streaming.is_empty());
    assert_eq!(sources.loan_next_free_static(), None);
    assert_eq!(sources.loan_next_free_streaming(), None);
}

#[test]
fn loans_go_to_the_first_free_voice_by_place() {
    let mut sources = pool(3, 2);
    let a = sources.loan_next_free_static().unwrap();
    let b = sources.loan_next_free_static().unwrap();
    let s = sources.loan_next_free_streaming().unwrap();
    assert_eq!(a, SoundSourceLoan { source_id: 0, event_id: 0, streaming: false });
    assert_eq!(b, SoundSourceLoan { source_id: 1, event_id: 1, streaming: false });
    assert_eq!(s, SoundSourceLoan { source_id: 0, event_id: 2, streaming: true });
    assert_eq!(sources.next_event, 3);
    assert_eq!(sources.sources[0].current_binding, Some(SoundBinding { event_id: 0, looping: false }));
    assert_eq!(sources.sources[2].current_binding, None);
}

#[test]
fn a_freed_voice_in_front_is_taken_before_a_later_one() {
    let mut sources = pool(3, 0);
    sources.loan_next_free_static().unwrap();
    sources.loan_next_free_static().unwrap();
    let script = sources.check_bindings(&vec![true, false, false], &vec![]);
    assert_eq!(script, vec![DeviceCommand::Release(Voice::Static(0))]);
    let again = sources.loan_next_free_static().unwrap();
    assert_eq!(again, SoundSourceLoan { source_id: 0, event_id: 2, streaming: false });
}

#[test]
fn an_exhausted_pool_lends_nothing_and_stays_as_it_is() {
    let mut sources = pool(1, 1);
    assert!(sources.loan_next_free_static().is_some());
    assert!(sources.loan_next_free_streaming().is_some());
    assert_eq!(sources.loan_next_free_static(), None);
    assert_eq!(sources.loan_next_free_streaming(), None);
    assert_eq!(sources.next_event, 2);
}

#[test]
fn no_loan_once_the_identities_have_run_out() {
    let mut sources = pool(1, 0);
    sources.next_event = u64::MAX;
    assert_eq!(sources.loan_next_free_static(), None);
    assert_eq!(sources.sources[0].current_binding, None);
    assert_eq!(sources.next_event, u64::MAX);
}

#[test]
fn for_loan_takes_the_exact_loan_only() {
    let mut sources = pool(2, 1);
    let loan = sources.loan_next_free_static().unwrap();
    assert_eq!(sources.for_loan(loan), Some(Voice::Static(0)));
    assert_eq!(sources.for_loan(SoundSourceLoan { event_id: 7, ..loan }), None);
    assert_eq!(sources.for_loan(SoundSourceLoan { source_id: 1, ..loan }), None);
    assert_eq!(sources.for_loan(SoundSourceLoan { streaming: true, ..loan }), None);
    assert_eq!(sources.for_loan(SoundSourceLoan { source_id: 9, ..loan }), None);
}

#[test]
fn a_loan_is_stale_after_its_voice_was_lent_again() {
    let mut sources = pool(1, 0);
    let first = sources.loan_next_free_static().unwrap();
    sources.check_bindings(&vec![true], &vec![]);
    assert_eq!(sources.for_loan(first), None);
    let second = sources.loan_next_free_static().unwrap();
    assert_eq!(second.source_id, first.source_id);
    assert_ne!(second.event_id, first.event_id);
    assert_eq!(sources.for_loan(first), None);
    assert_eq!(sources.for_loan(second), Some(Voice::Static(0)));
}

#[test]
fn bound_voices_never_share_an_identity() {
    let mut sources = pool(3, 2);
    for round in 0..4 {
        while sources.loan_next_free_static().is_some() {}
        while sources.loan_next_free_streaming().is_some() {}
        let mut ids: Vec<u64> = Vec::new();
        for s in sources.sources.iter() {
            ids.push(s.current_binding.unwrap().event_id);
        }
        for s in sources.streaming.iter() {
            ids.push(s.current_binding.unwrap().event_id);
        }
        let mut unique = ids.clone();
        unique.sort();
        unique.dedup();
        assert_eq!(unique.len(), ids.len());
        assert!(ids.iter().all(|id| *id < sources.next_event));
        let stopped = vec![round % 2 == 0, true, round % 2 == 1];
        sources.check_bindings(&stopped, &vec![true, false]);
    }
}

#[test]
fn assign_event_sets_the_loop_flag_of_a_valid_loan() {
    let mut sources = pool(1, 1);
    let loan = sources.loan_next_free_streaming().unwrap();
    assert!(sources.assign_event(loan, true));
    assert_eq!(
        sources.streaming[0].current_binding,
        Some(SoundBinding { event_id: loan.event_id, looping: true })
    );
    let stale = SoundSourceLoan { event_id: loan.event_id + 1, ..loan };
    assert!(!sources.assign_event(stale, false));
    assert_eq!(
        sources.streaming[0].current_binding,
        Some(SoundBinding { event_id: loan.event_id, looping: true })
    );
}

#[test]
fn check_bindings_gives_back_stopped_voices_that_do_not_loop() {
    let mut sources = pool(3, 2);
    let a = sources.loan_next_free_static().unwrap();
    let b = sources.loan_next_free_static().unwrap();
    let s = sources.loan_next_free_streaming().unwrap();
    let t = sources.loan_next_free_streaming().unwrap();
    sources.assign_event(b, true);
    sources.assign_event(t, true);
    sources.attach_stream(0);
    sources.ensure_buffers_queued(0, StreamEvent::Chunk { duration: 5 }, 100);
    let script = sources.check_bindings(&vec![true, true, true], &vec![true, true]);
    assert_eq!(
        script,
        vec![DeviceCommand::Release(Voice::Static(0)), DeviceCommand::Release(Voice::Streaming(0))]
    );
    assert_eq!(sources.for_loan(a), None);
    assert_eq!(sources.for_loan(b), Some(Voice::Static(1)));
    assert_eq!(sources.for_loan(s), None);
    assert_eq!(sources.for_loan(t), Some(Voice::Streaming(1)));
    assert_eq!(sources.streaming[0].stream, StreamState::Closed);
    assert!(sources.streaming[0].queued.is_empty());
}

#[test]
fn check_bindings_reads_a_short_report_as_still_playing() {
    let mut sources = pool(2, 0);
    sources.loan_next_free_static().unwrap();
    let b = sources.loan_next_free_static().unwrap();
    let script = sources.check_bindings(&vec![true], &vec![]);
    assert_eq!(script, vec![DeviceCommand::Release(Voice::Static(0))]);
    assert_eq!(sources.for_loan(b), Some(Voice::Static(1)));
}

#[test]
fn survives_says_what_check_bindings_will_leave() {
    let mut sources = pool(2, 0);
    let a = sources.loan_next_free_static().unwrap();
    let b = sources.loan_next_free_static().unwrap();
    sources.assign_event(b, true);
    let stopped = vec![true, true];
    assert!(!sources.survives(a, &stopped, &vec![]));
    assert!(sources.survives(b, &stopped, &vec![]));
    assert!(sources.survives(a, &vec![false, true], &vec![]));
    sources.check_bindings(&stopped, &vec![]);
    assert_eq!(sources.for_loan(a), None);
    assert_eq!(sources.for_loan(b), Some(Voice::Static(1)));
}

#[test]
fn purge_releases_every_voice_in_order() {
    let mut sources = pool(2, 1);
    let a = sources.loan_next_free_static().unwrap();
    let s = sources.loan_next_free_streaming().unwrap();
    sources.assign_event(a, true);
    let script = sources.purge();
    assert_eq!(
        script,
        vec![
            DeviceCommand::Release(Voice::Static(0)),
            DeviceCommand::Release(Voice::Static(1)),
            DeviceCommand::Release(Voice::Streaming(0)),
        ]
    );
    assert_eq!(sources.for_loan(a), None);
    assert_eq!(sources.for_loan(s), None);
    assert_eq!(sources.next_event, 2);
}

#[test]
fn loan_to_voice_names_kind_and_place() {
    let loan = SoundSourceLoan { source_id: 4, event_id: 1, streaming: false };
    assert_eq!(loan.to_voice(), Voice::Static(4));
    let loan = SoundSourceLoan { source_id: 2, event_id: 1, streaming: true };
    assert_eq!(loan.to_voice(), Voice::Streaming(2));
}

#[test]
fn only_a_refused_release_is_passed_over() {
    assert!(!DeviceCommand::Release(Voice::Static(0)).is_fatal());
    assert!(DeviceCommand::Stop(Voice::Static(0)).is_fatal());
    assert!(DeviceCommand::Play(Voice::Streaming(1)).is_fatal());
    assert!(DeviceCommand::ClearBuffers.is_fatal());
    assert!(DeviceCommand::SetGain(howl::ONE).is_fatal());
}

#[test]
fn refill_decodes_until_the_target_is_queued() {
    let mut sources = pool(0, 1);
    let loan = sources.loan_next_free_streaming().unwrap();
    sources.attach_stream(loan.source_id);
    assert_eq!(sources.ensure_buffers_queued(0, StreamEvent::Begin { processed: 0 }, 1000), StreamAction::Decode);
    assert_eq!(sources.ensure_buffers_queued(0, StreamEvent::Chunk { duration: 400 }, 1000), StreamAction::Decode);
    assert_eq!(sources.ensure_buffers_queued(0, StreamEvent::Chunk { duration: 400 }, 1000), StreamAction::Decode);
    assert_eq!(sources.ensure_buffers_queued(0, StreamEvent::Chunk { duration: 200 }, 1000), StreamAction::Done);
    assert_eq!(sources.streaming[0].queued, vec![400, 400, 200]);
}

#[test]
fn refill_drops_the_slots_that_the_device_has_finished() {
    let mut sources = pool(0, 1);
    sources.loan_next_free_streaming().unwrap();
    sources.attach_stream(0);
    for d in [300u64, 300, 400] {
        sources.ensure_buffers_queued(0, StreamEvent::Chunk { duration: d }, 1000);
    }
    assert_eq!(sources.ensure_buffers_queued(0, StreamEvent::Begin { processed: 2 }, 1000), StreamAction::Decode);
    assert_eq!(sources.streaming[0].queued, vec![400]);
    assert_eq!(sources.ensure_buffers_queued(0, StreamEvent::Chunk { duration: 600 }, 1000), StreamAction::Done);
    assert_eq!(sources.ensure_buffers_queued(0, StreamEvent::Begin { processed: 9 }, 1000), StreamAction::Decode);
    assert!(sources.streaming[0].queued.is_empty());
}

#[test]
fn refill_with_a_full_queue_asks_for_nothing() {
    let mut sources = pool(0, 1);
    sources.loan_next_free_streaming().unwrap();
    sources.attach_stream(0);
    sources.ensure_buffers_queued(0, StreamEvent::Chunk { duration: 5000 }, 1000);
    assert_eq!(sources.ensure_buffers_queued(0, StreamEvent::Begin { processed: 0 }, 1000), StreamAction::Done);
    assert_eq!(sources.ensure_buffers_queued(0, StreamEvent::Begin { processed: 0 }, 5000), StreamAction::Done);
    assert_eq!(sources.ensure_buffers_queued(0, StreamEvent::Begin { processed: 0 }, 5001), StreamAction::Decode);
}

#[test]
fn refill_sums_durations_beyond_a_u64() {
    let mut sources = pool(0, 1);
    sources.loan_next_free_streaming().unwrap();
    sources.attach_stream(0);
    sources.ensure_buffers_queued(0, StreamEvent::Chunk { duration: u64::MAX - 1 }, u64::MAX);
    assert_eq!(
        sources.ensure_buffers_queued(0, StreamEvent::Chunk { duration: u64::MAX - 1 }, u64::MAX),
        StreamAction::Done
    );
}

#[test]
fn the_end_of_a_stream_that_does_not_loop_ends_the_refill() {
    let mut sources = pool(0, 1);
    let loan = sources.loan_next_free_streaming().unwrap();
    sources.attach_stream(0);
    sources.ensure_buffers_queued(0, StreamEvent::Chunk { duration: 100 }, 1000);
    assert_eq!(sources.ensure_buffers_queued(0, StreamEvent::EndOfStream, 1000), StreamAction::Done);
    assert_eq!(sources.streaming[0].stream, StreamState::Exhausted);
    assert_eq!(sources.streaming[0].queued, vec![100]);
    assert_eq!(sources.for_loan(loan), Some(Voice::Streaming(0)));
    assert_eq!(sources.ensure_buffers_queued(0, StreamEvent::Begin { processed: 1 }, 1000), StreamAction::Done);
    assert_eq!(sources.ensure_buffers_queued(0, StreamEvent::Chunk { duration: 100 }, 1000), StreamAction::Done);
    assert!(sources.streaming[0].queued.is_empty());
}

#[test]
fn the_end_of_a_looping_stream_opens_it_again() {
    let mut sources = pool(0, 1);
    let loan = sources.loan_next_free_streaming().unwrap();
    sources.attach_stream(0);
    sources.assign_event(loan, true);
    sources.ensure_buffers_queued(0, StreamEvent::Chunk { duration: 100 }, 1000);
    assert_eq!(sources.ensure_buffers_queued(0, StreamEvent::EndOfStream, 1000), StreamAction::Reopen);
    assert_eq!(sources.streaming[0].stream, StreamState::Open);
    assert_eq!(sources.ensure_buffers_queued(0, StreamEvent::Reopened, 1000), StreamAction::Decode);
    assert_eq!(sources.ensure_buffers_queued(0, StreamEvent::Chunk { duration: 900 }, 1000), StreamAction::Done);
}

#[test]
fn a_failed_decode_unbinds_the_voice() {
    let mut sources = pool(0, 1);
    let loan = sources.loan_next_free_streaming().unwrap();
    sources.attach_stream(0);
    sources.ensure_buffers_queued(0, StreamEvent::Chunk { duration: 100 }, 1000);
    assert_eq!(sources.ensure_buffers_queued(0, StreamEvent::Failed, 1000), StreamAction::Release);
    assert_eq!(sources.for_loan(loan), None);
    assert_eq!(sources.streaming[0].stream, StreamState::Closed);
    assert!(sources.streaming[0].queued.is_empty());
    assert!(sources.loan_next_free_streaming().is_some());
}

#[test]
fn a_refill_of_a_voice_that_is_not_there_does_nothing() {
    let mut sources = pool(0, 1);
    assert_eq!(sources.ensure_buffers_queued(3, StreamEvent::Begin { processed: 0 }, 1000), StreamAction::Done);
    assert_eq!(sources.ensure_buffers_queued(0, StreamEvent::Begin { processed: 0 }, 1000), StreamAction::Done);
    sources.attach_stream(3);
    assert_eq!(sources.streaming[0].stream, StreamState::Closed);
}

#[test]
fn a_queue_topped_up_to_the_target_outlasts_a_shorter_interval() {
    let mut sources = pool(0, 1);
    sources.loan_next_free_streaming().unwrap();
    sources.attach_stream(0);
    let target = 1000u64;
    let chunks = [250u64; 12];
    let mut next = 0;
    let mut action = sources.ensure_buffers_queued(0, StreamEvent::Begin { processed: 0 }, target);
    for _tick in 0..3 {
        while action == StreamAction::Decode {
            action = sources.ensure_buffers_queued(0, StreamEvent::Chunk { duration: chunks[next] }, target);
            next += 1;
        }
        let queued: u64 = sources.streaming[0].queued.iter().sum();
        assert!(queued >= target);
        let elapsed = 999u64;
        let mut finished = 0usize;
        let mut played = 0u64;
        for d in sources.streaming[0].queued.iter() {
            if played + d <= elapsed {
                played += d;
                finished += 1;
            }
        }
        assert!(finished < sources.streaming[0].queued.len());
        action = sources.ensure_buffers_queued(0, StreamEvent::Begin { processed: finished }, target);
    }
}
