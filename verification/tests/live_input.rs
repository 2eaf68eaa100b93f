use gaw_app::ellipsis::{candidate, EllipsisSearch};
use gaw_app::live_input::{
    apply_chain_action, buffer_label, guidance, monitor_remark, needle, offered_effects,
    offers_faster, reduce_latency, set_live_parameter, string_label, string_pitch, tuner_contents,
    tuner_source, tuner_stays_open, CatalogEntry, CatalogKind, ChainAction, ChainEvent,
    LatencyStatus, TunerReading, LiveChain, LiveEffect, LiveKind, ParameterAttempt, PitchQuality, MAX_INPUT_EFFECTS,
};
use gaw_app::mailbox::{bucket_frames, MailStep, Mailbox, Progress, WaveformCache};
use gaw_app::meter::{lit_colors, segment_count, MeterColor};

fn effect<S>(kind: LiveKind, settings: S) -> LiveEffect<S> {
    LiveEffect { id: 1, enabled: true, kind, settings }
}

#[test]
fn reducing_effect_latency_preserves_sound_controls_and_disabled_effects() {
    let mut pitch = effect(
        LiveKind::PitchShift {
            quality: PitchQuality::Signalsmith,
            mix: 700,
            semitones: -12,
            cents: 0,
        },
        "pitch",
    );
    assert!(pitch.has_slower_live_settings());
    pitch.reduce_effect_latency();
    assert_eq!(
        pitch.kind,
        LiveKind::PitchShift { quality: PitchQuality::Draft, mix: 700, semitones: -12, cents: 0 }
    );
    assert!(!pitch.has_slower_live_settings());
    let lookahead = LiveKind::Limiter { lookahead: 5_000 };
    let mut limiter = effect(lookahead, "limiter");
    assert!(limiter.has_slower_live_settings());
    limiter.enabled = false;
    limiter.reduce_effect_latency();
    assert_eq!(limiter.kind, lookahead);
    limiter.enabled = true;
    limiter.reduce_effect_latency();
    assert!(!limiter.has_slower_live_settings());
    let mut compressor =
        effect(LiveKind::Compressor { lookahead: 10_000 }, ("threshold", -18, "ratio", 6));
    assert!(compressor.has_slower_live_settings());
    compressor.reduce_effect_latency();
    assert!(!compressor.has_slower_live_settings());
    assert_eq!(compressor.settings, ("threshold", -18, "ratio", 6));
    assert!(!offers_faster(&vec![compressor]));
}

#[test]
fn reorder_and_remove_preserve_effect_identity_and_settings() {
    let mut chain = vec!["gain", "delay off"];
    apply_chain_action(&mut chain, ChainAction::Move(1, 0));
    assert_eq!(chain, vec!["delay off", "gain"]);
    apply_chain_action(&mut chain, ChainAction::Remove(1));
    assert_eq!(chain, vec!["delay off"]);
}

#[test]
fn invalid_live_parameter_keeps_the_previous_valid_effect() {
    let mut effect = 0;
    assert!(set_live_parameter(&mut effect, ParameterAttempt::Changed(-12)).is_ok());
    assert_eq!(effect, -12);
    let refused = ParameterAttempt::Invalid("gain_db is out of range".to_string());
    assert!(set_live_parameter(&mut effect, refused).is_err());
    assert_eq!(effect, -12);
    assert!(set_live_parameter(&mut effect, ParameterAttempt::Unknown).is_err());
    assert_eq!(effect, -12);
}

fn catalog() -> Vec<CatalogEntry<&'static str>> {
    vec![
        CatalogEntry { kind: CatalogKind::Effect(LiveKind::Other), settings: "gain" },
        CatalogEntry { kind: CatalogKind::Analyzer, settings: "spectrum" },
        CatalogEntry { kind: CatalogKind::Effect(LiveKind::Other), settings: "delay" },
    ]
}

fn chain() -> LiveChain<&'static str> {
    let mut chain = LiveChain { effects: Vec::new(), bypassed: false, error: None };
    chain.chain_contents(&catalog(), ChainEvent::Add { place: 0, id: 10 });
    chain.chain_contents(&catalog(), ChainEvent::Add { place: 2, id: 11 });
    chain
}

fn settings(chain: &LiveChain<&'static str>) -> Vec<&'static str> {
    chain.effects.iter().map(|effect| effect.settings).collect()
}

#[test]
fn a_chain_holds_no_more_than_it_may() {
    let mut chain = chain();
    for id in 0..MAX_INPUT_EFFECTS as u128 + 4 {
        chain.chain_contents(&catalog(), ChainEvent::Add { place: 2, id });
    }
    assert_eq!(chain.effects.len(), 16);
    assert_eq!(chain.count_text(), "16/16");
}

#[test]
fn analyzers_never_join_a_chain() {
    assert_eq!(offered_effects(&catalog()), vec![0, 2]);
    let mut chain = chain();
    chain.chain_contents(&catalog(), ChainEvent::Add { place: 1, id: 12 });
    chain.chain_contents(&catalog(), ChainEvent::Add { place: 3, id: 12 });
    assert_eq!(settings(&chain), vec!["gain", "delay"]);
    assert_eq!(chain.effects[1].id, 11);
    assert!(chain.effects[1].enabled);
}

#[test]
fn a_chain_is_reordered_and_bypassed() {
    let mut chain = chain();
    chain.chain_contents(&catalog(), ChainEvent::Later(0));
    assert_eq!(settings(&chain), vec!["delay", "gain"]);
    chain.chain_contents(&catalog(), ChainEvent::Later(1));
    assert_eq!(settings(&chain), vec!["delay", "gain"]);
    chain.chain_contents(&catalog(), ChainEvent::Earlier(1));
    assert_eq!(settings(&chain), vec!["gain", "delay"]);
    chain.chain_contents(&catalog(), ChainEvent::Bypass(true));
    assert!(chain.bypassed);
    chain.chain_contents(&catalog(), ChainEvent::Enable(1, false));
    assert!(!chain.effects[1].enabled);
    chain.chain_contents(&catalog(), ChainEvent::Parameter(0, ParameterAttempt::Unknown));
    assert!(chain.error.is_some());
    chain.chain_contents(&catalog(), ChainEvent::Remove(0));
    assert_eq!(settings(&chain), vec!["delay"]);
    assert!(chain.error.is_none());
}

#[test]
fn tuner_feedback_fits_the_panel_for_silence_and_detuned_strings() {
    for (cents, opening, expected) in [
        (None, true, "Opening input…"),
        (None, false, "Play one open string at a time"),
        (Some(-140_000), false, "FLAT · Tighten the string"),
        (Some(140_000), false, "SHARP · Loosen the string"),
        (Some(0), false, "IN TUNE"),
    ] {
        assert_eq!(guidance(cents, opening), expected);
    }
    assert_eq!(needle(0), 500);
    assert_eq!(needle(25_000), 750);
    assert_eq!(needle(140_000), 1_000);
    assert_eq!(needle(-140_000), 0);
    assert_ne!(string_label(0), string_label(1));
}

#[test]
fn the_tuner_closes_with_the_input() {
    assert!(tuner_stays_open(true, true, true));
    assert!(!tuner_stays_open(false, true, true));
    assert!(monitor_remark(true, true, false).is_none());
    assert!(monitor_remark(false, true, false).is_some());
    assert_eq!(buffer_label(None), Some("AUTO"));
    assert_eq!(buffer_label(Some(64)), Some("64 · FAST"));
    assert_eq!(buffer_label(Some(100)), None);
}

#[test]
fn dropped_sound_is_reported_only_where_there_was_some() {
    let status = LatencyStatus {
        sample_rate: 48_000,
        input_callback: 128,
        output_buffer: Some(128),
        queued: 0,
        effects: 0,
        dropped: 0,
        underrun: 0,
    };
    assert!(status.recovery_text().is_none());
    assert!(LatencyStatus { dropped: 5, ..status }.recovery_text().is_some());
    assert_eq!(
        status.text(),
        "Callbacks: in 2.67 / out 2.67 ms · Queue 0.00 ms · FX 0.00 ms"
    );
    let huge = LatencyStatus { output_buffer: None, queued: u64::MAX, sample_rate: 7, ..status };
    let millis = |frames: u64| frames as f64 * 1000.0 / 7.0;
    assert_eq!(
        huge.text(),
        format!(
            "Callbacks: in {:.2} / out — ms · Queue {:.2} ms · FX {:.2} ms",
            millis(128),
            millis(u64::MAX),
            millis(0)
        )
    );
    for frames in [9_007_199_254_740_993, 9_007_199_254_740_995, 1_000_000_000_000_007] {
        let status = LatencyStatus { queued: frames, ..huge };
        assert!(status.text().contains(&format!("Queue {:.2} ms", millis(frames))));
    }
    let rateless = LatencyStatus { sample_rate: 0, ..status };
    assert_eq!(
        rateless.text(),
        "Callbacks: in inf / out inf ms · Queue NaN ms · FX NaN ms"
    );
}

#[test]
fn rapid_preview_selection_decodes_only_active_and_latest_requests() {
    let mut mailbox = Mailbox::new();
    mailbox.request(0);
    assert!(matches!(mailbox.next_step(), MailStep::Work(0)));
    for revision in 1..10_000 {
        let replaced = mailbox.request(revision);
        assert_eq!(replaced, if revision == 1 { None } else { Some(revision - 1) });
    }
    assert!(matches!(mailbox.next_step(), MailStep::Work(9_999)));
    mailbox.request(10_000);
    assert_eq!(mailbox.cancel_pending(), Some(10_000));
    assert!(matches!(mailbox.next_step(), MailStep::Wait));
    mailbox.close();
    assert!(matches!(mailbox.next_step(), MailStep::Stop));
}

#[test]
fn long_work_stops_for_a_newer_request() {
    let mut mailbox = Mailbox::new();
    assert_eq!(mailbox.after_part(), Progress::Continue);
    mailbox.request("newer");
    assert_eq!(mailbox.after_part(), Progress::Restart);
    mailbox.close();
    assert_eq!(mailbox.after_part(), Progress::Stop);
}

#[test]
fn waveforms_of_long_recordings_are_coarser() {
    assert_eq!(bucket_frames(1_000), 128);
    assert!(bucket_frames(128 * 262_144 + 1) > 128);
    let mut cache = WaveformCache::new();
    assert_eq!(cache.find("abc"), None);
    cache.learn("abc");
    assert_eq!(cache.find("abc"), Some(0));
}

#[test]
fn meters_light_up_from_green_to_red() {
    let segments = segment_count(200_000);
    assert!(segments > 0);
    assert!(lit_colors(0, segments).is_empty());
    let full = lit_colors(1_000, segments);
    assert_eq!(full.len(), segments as usize);
    assert_eq!(full[0], MeterColor::Green);
    assert_eq!(full[full.len() - 1], MeterColor::Red);
}

#[test]
fn the_longest_text_that_fits_is_found() {
    let text = "a long name";
    let room = 5;
    let mut search = EllipsisSearch::new(text.chars().count());
    while let Some(letters) = search.probe() {
        search.answer(letters <= room);
    }
    assert_eq!(search.low, room);
    assert_eq!(candidate(text, room), "a lon…");
}

#[test]
fn the_tuner_shows_what_it_hears() {
    let flat = TunerReading { string: 1, cents: -12_340, frequency: 54_609_000 };
    let view = tuner_contents(Some(flat), true);
    assert_eq!(view.active, Some(1));
    assert!(!view.in_tune);
    assert_eq!(view.cents, "-12.3 cents");
    assert_eq!(view.frequency, "54.61 Hz");
    assert_eq!(view.needle, Some(376));
    assert_eq!(view.guidance, "FLAT · Tighten the string");
    let right = TunerReading { string: 0, cents: 5_000, frequency: 41_203_445 };
    let view = tuner_contents(Some(right), false);
    assert!(view.in_tune);
    assert_eq!(view.cents, "+5.0 cents");
    assert_eq!(view.frequency, string_pitch(0));
    let silent = tuner_contents(None, true);
    assert_eq!((silent.cents.as_str(), silent.frequency.as_str()), ("— cents", "— Hz"));
    assert_eq!(silent.guidance, "Opening input…");
    assert_eq!(tuner_source("Interface", 0), "Interface · Input 1");
}

#[test]
fn a_chain_is_made_fast_at_once() {
    let limiter = |enabled: bool| LiveEffect {
        id: 1,
        enabled,
        kind: LiveKind::Limiter { lookahead: 5_000 },
        settings: (),
    };
    let mut chain = vec![limiter(true), limiter(false)];
    assert!(offers_faster(&chain));
    reduce_latency(&mut chain);
    assert!(!offers_faster(&chain));
    assert!(matches!(chain[0].kind, LiveKind::Limiter { lookahead: 0 }));
    assert!(matches!(chain[1].kind, LiveKind::Limiter { lookahead: 5_000 }));
}
