use gaw_app::asset_dialog::AssetDesk;
use gaw_app::layout::{grid_place, key_label, piano_offset, piano_place, Key, Layout, PianoKey, Pitch};
use gaw_app::instrument::KeyboardInstrumentStatus;
use gaw_app::intents::Intent;
use gaw_app::piano::{
    is_interrupted, keyboard_remark, note_name, octave_label, pitch_label, HeldNote,
    InstrumentRemark, KeyboardPiano, PianoAction, PianoMessage, RecordedNote, RecordingConditions,
    RecordingToggle, Take, TakeClock, TransportPlace, SHORTEST_NOTE,
};
use std::collections::HashSet;

const BPM: f64 = 120.0;
const TRACK: Option<u128> = Some(7);

/// The keys of the grid, from the top row down.
const ROWS: [[PianoKey; 12]; 4] = [
    [
        PianoKey::Key(Key::Backtick),
        PianoKey::Key(Key::Num1),
        PianoKey::Key(Key::Num2),
        PianoKey::Key(Key::Num3),
        PianoKey::Key(Key::Num4),
        PianoKey::Key(Key::Num5),
        PianoKey::Key(Key::Num6),
        PianoKey::Key(Key::Num7),
        PianoKey::Key(Key::Num8),
        PianoKey::Key(Key::Num9),
        PianoKey::Key(Key::Num0),
        PianoKey::Key(Key::Minus),
    ],
    [
        PianoKey::Key(Key::Tab),
        PianoKey::Key(Key::Q),
        PianoKey::Key(Key::W),
        PianoKey::Key(Key::E),
        PianoKey::Key(Key::R),
        PianoKey::Key(Key::T),
        PianoKey::Key(Key::Y),
        PianoKey::Key(Key::U),
        PianoKey::Key(Key::I),
        PianoKey::Key(Key::O),
        PianoKey::Key(Key::P),
        PianoKey::Key(Key::OpenBracket),
    ],
    [
        PianoKey::CapsLock,
        PianoKey::Key(Key::A),
        PianoKey::Key(Key::S),
        PianoKey::Key(Key::D),
        PianoKey::Key(Key::F),
        PianoKey::Key(Key::G),
        PianoKey::Key(Key::H),
        PianoKey::Key(Key::J),
        PianoKey::Key(Key::K),
        PianoKey::Key(Key::L),
        PianoKey::Key(Key::Semicolon),
        PianoKey::Key(Key::Quote),
    ],
    [
        PianoKey::ShiftLeft,
        PianoKey::Key(Key::Z),
        PianoKey::Key(Key::X),
        PianoKey::Key(Key::C),
        PianoKey::Key(Key::V),
        PianoKey::Key(Key::B),
        PianoKey::Key(Key::N),
        PianoKey::Key(Key::M),
        PianoKey::Key(Key::Comma),
        PianoKey::Key(Key::Period),
        PianoKey::Key(Key::Slash),
        PianoKey::ShiftRight,
    ],
];

/// A time in nanoseconds.
fn at(now: f64) -> u64 {
    (now * 1e9).round() as u64
}

fn stopped() -> TransportPlace {
    TransportPlace { playing: false, playhead: 0, tempo: (BPM * 1_000.0) as u32 }
}

fn take(with_transport: bool) -> Take<&'static str> {
    let clock = TakeClock::new(0, 0, 0, 120_000);
    Take { target: "clip", notes: Vec::new(), clock, with_transport }
}

fn letter(key: Key) -> PianoKey {
    PianoKey::Key(key)
}

fn recording() -> KeyboardPiano<&'static str> {
    let mut piano = KeyboardPiano::new();
    assert!(piano.start_recording(Some("clip"), 0, TRACK, stopped(), at(1.0)));
    piano
}

/// What a key does to a keyboard whose instrument is not there.
fn press(piano: &mut KeyboardPiano<&'static str>, key: PianoKey, repeat: bool, now: f64) {
    match piano.decide(key, true, repeat, at(now)) {
        PianoAction::Play { pitch, velocity } => {
            piano.strike(key, pitch, velocity, false, at(now));
        }
        PianoAction::Octave(up) => piano.change_octave(up, at(now)),
        _ => {}
    }
}

fn steady() -> RecordingConditions {
    RecordingConditions {
        recording: true,
        same_target: true,
        tempo_changed: false,
        playing: true,
        rewound: false,
        drifted: false,
    }
}

fn semitones(pitch: Pitch) -> f64 {
    f64::from(pitch.note) + f64::from(pitch.sevenths) / 7.0
}

#[test]
fn record_from_closed_panel_captures_chord_timing_and_ignores_repeat() {
    let mut piano = recording();
    assert!(piano.open);
    press(&mut piano, letter(Key::A), false, 1.1);
    press(&mut piano, letter(Key::D), false, 1.1);
    assert_eq!(piano.held.len(), 2);
    press(&mut piano, letter(Key::A), true, 1.2);
    // Releases still arrive after a modifier is held.
    assert!(piano.claims(Key::A, false, true));
    piano.decide(letter(Key::A), false, false, at(1.6));
    let take = piano.finish(at(2.1)).unwrap();
    assert_eq!(take.target, "clip");
    assert_eq!(take.notes.len(), 2);
    let first = take.notes[0];
    let parts = 960_000.0;
    assert!((first.start as f64 / parts - 0.1 * BPM / 60.0).abs() < 1e-6);
    assert!((first.duration as f64 / parts - 0.5 * BPM / 60.0).abs() < 1e-6);
    assert_eq!(first.pitch.note, 60);
}

#[test]
fn focus_loss_finishes_take_and_releases_keys() {
    let mut piano = recording();
    press(&mut piano, letter(Key::A), false, 1.1);
    assert!(!piano.must_finish(TRACK, true, false, false));
    assert!(piano.must_finish(TRACK, false, false, false));
    let take = piano.finish(at(1.5)).unwrap();
    assert!(piano.held.is_empty());
    assert!(piano.take.is_none());
    assert_eq!(take.notes.len(), 1);
}

#[test]
fn even_a_small_timeline_seek_finishes_the_take_before_moving() {
    let mut piano = recording();
    press(&mut piano, letter(Key::A), false, 1.1);
    let mut desk = AssetDesk::new();
    let seek = Intent::Seek(240_000);
    let take = piano.before_timeline_action(seek, at(1.2)).unwrap();
    assert_eq!(take.target, "clip");
    assert_eq!(take.notes.len(), 1);
    assert!(piano.take.is_none());
    assert!(piano.held.is_empty());
    assert_eq!(desk.handle_timeline_action(seek, &Vec::new(), 120_000), Some(seek));
}

#[test]
fn a_playhead_that_leaves_the_recording_finishes_the_take() {
    let mut piano: KeyboardPiano<&'static str> = KeyboardPiano::new();
    let place = |playhead| TransportPlace { playing: true, playhead, tempo: 120_000 };
    assert!(piano.start_recording(Some("clip"), 0, TRACK, place(0), at(1.0)));
    press(&mut piano, letter(Key::A), false, 1.1);
    piano.follow(192_000);
    assert_eq!(piano.take.as_ref().unwrap().clock.last_playhead, 192_000);
    let now = at(1.1);
    let interrupted = piano.interrupted(true, true, place(192_000 + 720_000), now);
    assert!(!piano.must_finish(TRACK, true, false, interrupted));
    let interrupted = piano.interrupted(true, true, place(192_000 + 720_001), now);
    assert!(piano.must_finish(TRACK, true, false, interrupted));
    assert!(!piano.interrupted(true, true, place(192_000 - 48_000), now));
    assert!(piano.interrupted(true, true, place(192_000 - 48_001), now));
    let idle: KeyboardPiano<&'static str> = KeyboardPiano::new();
    assert!(!idle.interrupted(false, false, place(0), now));
}

#[test]
fn a_recording_starts_where_the_cursor_is_in_the_clip() {
    let mut piano: KeyboardPiano<&'static str> = KeyboardPiano::new();
    let inside = TransportPlace { playing: true, playhead: 5 * 960_000, tempo: 90_000 };
    assert!(piano.start_recording(Some("clip"), 4 * 960_000, TRACK, inside, at(1.0)));
    assert_eq!(
        piano.take.as_ref().unwrap().clock,
        TakeClock {
            started: at(1.0),
            start_beat: 960_000,
            tempo: 90_000,
            clip_start: 4 * 960_000,
            last_playhead: 5 * 960_000,
        }
    );
    press(&mut piano, letter(Key::A), false, 1.0);
    let take = piano.finish(at(1.0)).unwrap();
    assert_eq!(take.notes[0].start, 960_000);
    let stopped = TransportPlace { playing: false, ..inside };
    assert!(piano.start_recording(Some("clip"), 8 * 960_000, TRACK, stopped, at(2.0)));
    assert_eq!(piano.take.as_ref().unwrap().clock.start_beat, 0);
    let clock = TakeClock::new(0, i64::MIN, i64::MAX, 1);
    assert_eq!(clock.start_beat, u64::MAX);
}

#[test]
fn only_a_seek_ends_a_recording_from_the_arrangement() {
    let mut piano = recording();
    press(&mut piano, letter(Key::A), false, 1.1);
    assert!(piano.before_timeline_action(Intent::ToggleLoop, at(1.2)).is_none());
    assert!(piano.take.is_some());
    assert_eq!(piano.held.len(), 1);
    let mut idle: KeyboardPiano<&'static str> = KeyboardPiano::new();
    idle.open = true;
    assert!(idle.strike(letter(Key::A), Pitch { note: 60, sevenths: 0 }, 100, true, 0));
    assert!(idle.before_timeline_action(Intent::Seek(0), at(1.2)).is_none());
    assert_eq!(idle.held.len(), 1);
}

#[test]
fn text_focus_does_not_play_or_record_typing() {
    let mut piano = recording();
    let blocked = true;
    assert!(piano.must_finish(TRACK, true, blocked, false));
    assert!(!piano.is_active(TRACK, true, blocked));
    piano.finish(at(1.1));
    assert!(piano.take.is_none());
    assert!(piano.held.is_empty());
}

#[test]
fn piano_keys_take_priority_over_editor_shortcuts_only_while_enabled() {
    let mut piano: KeyboardPiano<&'static str> = KeyboardPiano::new();
    piano.open = true;
    piano.track = TRACK;
    assert!(piano.is_active(TRACK, true, false));
    assert!(piano.claims(Key::L, true, false));
    match piano.decide(letter(Key::L), true, false, 0) {
        PianoAction::Play { pitch, velocity } => {
            assert!(piano.strike(letter(Key::L), pitch, velocity, true, 0));
        }
        action => panic!("unexpected action: {action:?}"),
    }
    assert_eq!(piano.held.len(), 1);
    piano.open = false;
    assert!(!piano.is_active(TRACK, true, false));
    assert_eq!(piano.decide(letter(Key::L), false, false, 1), PianoAction::NoteOff(74));
    assert!(piano.held.is_empty());
}

#[test]
fn grid_recording_keeps_seven_edo_chords_and_layout_switch_releases_notes() {
    let mut piano: KeyboardPiano<&'static str> = KeyboardPiano::new();
    piano.set_layout(Layout::SevenEdo, 0);
    assert!(piano.start_recording(Some("clip"), 0, TRACK, stopped(), at(1.0)));
    press(&mut piano, PianoKey::ShiftLeft, false, 1.1);
    press(&mut piano, letter(Key::Z), false, 1.1);
    assert_eq!(piano.held.len(), 2);
    assert_eq!(piano.root, 60, "Z is a grid note, not octave down");
    piano.set_layout(Layout::Chromatic, at(1.6));
    assert!(piano.held.is_empty());
    press(&mut piano, PianoKey::ShiftRight, false, 1.7);
    let take = piano.finish(at(2.0)).unwrap();
    assert_eq!(take.notes.len(), 3);
    let pitches: Vec<f64> = take.notes.iter().map(|note| semitones(note.pitch)).collect();
    assert!((pitches[0] - 60.0).abs() < 1e-10);
    assert!((pitches[1] - (60.0 + 12.0 / 7.0)).abs() < 1e-10);
    assert!((pitches[2] - 71.0).abs() < 1e-10);
}

#[test]
fn keyboard_maps_chromatic_notes_and_reserves_octave_keys() {
    assert_eq!(piano_offset(Key::A), Some(0));
    assert_eq!(piano_offset(Key::W), Some(1));
    assert_eq!(piano_offset(Key::K), Some(12));
    assert_eq!(piano_offset(Key::P), Some(15));
    assert_eq!(piano_offset(Key::Z), None);
    for root in (0..=108).step_by(12) {
        assert!(root + 15 <= 127);
    }
}

#[test]
fn release_uses_note_at_press_time_and_is_idempotent() {
    let mut piano: KeyboardPiano<&'static str> = KeyboardPiano::new();
    piano.held.push(HeldNote {
        key: letter(Key::A),
        pitch: Pitch { note: 60, sevenths: 0 },
        velocity: 100,
        start: None,
    });
    piano.root = 72;
    assert_eq!(piano.release(letter(Key::A), 1), Some(60));
    assert_eq!(piano.release(letter(Key::A), 2), None);
}

#[test]
fn chromatic_grid_has_exact_requested_rows_and_semitones() {
    assert_eq!(grid_place(PianoKey::Key(Key::Backtick)), Some((0, 0)));
    assert_eq!(grid_place(PianoKey::Key(Key::Tab)), Some((1, 0)));
    assert_eq!(grid_place(PianoKey::CapsLock), Some((2, 0)));
    assert_eq!(grid_place(PianoKey::ShiftLeft), Some((3, 0)));
    assert_eq!(grid_place(PianoKey::ShiftRight), Some((3, 11)));
    let unique: HashSet<_> = ROWS.iter().flatten().map(|key| format!("{key:?}")).collect();
    assert_eq!(unique.len(), 48);
    for (row, keys) in ROWS.iter().enumerate() {
        for (column, &key) in keys.iter().enumerate() {
            assert_eq!(grid_place(key), Some((row as u8, column as u8)));
            let pitch = Layout::Chromatic.pitch(key, 36).unwrap();
            assert_eq!(usize::from(pitch.note), 36 + (3 - row) * 12 + column);
            assert_eq!(pitch.sevenths, 0);
        }
    }
}

#[test]
fn seven_edo_keeps_equal_steps_and_exact_octaves() {
    for (row, keys) in ROWS.iter().enumerate() {
        for (column, &key) in keys.iter().enumerate() {
            let pitch = Layout::SevenEdo.pitch(key, 36);
            if column >= 7 {
                assert!(pitch.is_none());
                continue;
            }
            let pitch = pitch.unwrap();
            let actual = semitones(pitch);
            let expected = 36.0 + (3 - row) as f64 * 12.0 + column as f64 * 12.0 / 7.0;
            assert!((actual - expected).abs() < 1e-10);
            if column > 0 {
                assert!(pitch.sevenths != 0);
            }
        }
    }
}

#[test]
fn grid_uses_z_and_x_as_notes_and_stays_in_midi_range() {
    for layout in [Layout::Chromatic, Layout::SevenEdo] {
        assert_eq!(layout.octave_key(Key::Z), None);
        assert_eq!(layout.octave_key(Key::X), None);
        assert_eq!(layout.octave_key(Key::PageUp), Some(true));
        for &key in ROWS.iter().flatten() {
            if let Some(pitch) = layout.pitch(key, layout.max_root()) {
                assert!(pitch.note <= 127);
            }
        }
    }
}

#[test]
fn recordings_begin_only_where_they_can_be_kept() {
    let mut piano: KeyboardPiano<&'static str> = KeyboardPiano::new();
    assert!(!piano.start_recording(None, 0, TRACK, stopped(), 0));
    assert!(matches!(piano.message, Some(PianoMessage::SelectClip)));
    let before = TransportPlace { playing: true, ..stopped() };
    assert!(!piano.start_recording(Some("clip"), 1, TRACK, before, 0));
    assert!(matches!(piano.message, Some(PianoMessage::MoveCursor)));
    piano.saved(take(false), Err("disk full".to_string()));
    assert_eq!(piano.message.as_ref().unwrap().text(), "Take not saved: disk full");
    assert!(!piano.start_recording(Some("clip"), 0, TRACK, stopped(), 0));
    assert!(matches!(piano.message, Some(PianoMessage::SaveFirst)));
    piano.discard_unsaved();
    assert!(piano.start_recording(Some("clip"), 0, TRACK, stopped(), 0));
}

#[test]
fn a_note_that_cannot_be_heard_is_still_recorded() {
    let mut piano = recording();
    let pitch = Pitch { note: 60, sevenths: 0 };
    assert!(piano.strike(letter(Key::A), pitch, 100, false, 5));
    assert!(matches!(piano.message, Some(PianoMessage::MidiOnly)));
    let mut silent: KeyboardPiano<&'static str> = KeyboardPiano::new();
    assert!(!silent.strike(letter(Key::A), pitch, 100, false, 5));
    assert!(silent.held.is_empty());
}

#[test]
fn the_shortest_note_has_a_length() {
    let mut piano = recording();
    press(&mut piano, letter(Key::A), false, 1.1);
    let take = piano.finish(at(1.1)).unwrap();
    assert_eq!(
        take.notes,
        vec![RecordedNote {
            start: 192_000,
            duration: SHORTEST_NOTE,
            pitch: Pitch { note: 60, sevenths: 0 },
            velocity: 100,
        }]
    );
}

#[test]
fn recordings_end_when_the_transport_leaves_them() {
    assert!(!is_interrupted(true, steady()));
    assert!(is_interrupted(true, RecordingConditions { playing: false, ..steady() }));
    assert!(!is_interrupted(false, RecordingConditions { playing: false, ..steady() }));
    assert!(is_interrupted(true, RecordingConditions { rewound: true, ..steady() }));
    assert!(is_interrupted(false, RecordingConditions { tempo_changed: true, ..steady() }));
    assert!(is_interrupted(false, RecordingConditions { same_target: false, ..steady() }));
    assert!(is_interrupted(false, RecordingConditions { recording: false, ..steady() }));
}

#[test]
fn octaves_stay_on_the_keyboard() {
    let mut piano: KeyboardPiano<&'static str> = KeyboardPiano::new();
    piano.change_octave(true, 0);
    assert_eq!(piano.root, 72);
    for _ in 0..20 {
        piano.change_octave(true, 0);
    }
    assert_eq!(piano.root, Layout::Piano.max_root());
    for _ in 0..20 {
        piano.change_octave(false, 0);
    }
    assert_eq!(piano.root, 0);
}

#[test]
fn layouts_and_notes_have_names() {
    assert_eq!(Layout::Piano.label(), "Piano");
    assert_eq!(Layout::Chromatic.columns(), 12);
    assert_eq!(Layout::SevenEdo.columns(), 7);
    assert_eq!(Layout::default(), Layout::Piano);
    assert_eq!(note_name(60), "C4");
    assert_eq!(note_name(61), "C#4");
    assert_eq!(pitch_label(Pitch { note: 60, sevenths: 0 }), "C4");
    assert_eq!(key_label(PianoKey::Key(Key::A)), "A");
}

#[test]
fn a_recording_knows_where_it_is() {
    let clock = TakeClock {
        started: 1_000_000_000,
        start_beat: 960_000,
        tempo: 120_000,
        clip_start: 4 * 960_000,
        last_playhead: 5 * 960_000,
    };
    assert_eq!(clock.beat(1_000_000_000), 960_000);
    assert_eq!(clock.beat(1_500_000_000), 2 * 960_000);
    assert_eq!(clock.beat(0), 960_000);
    let now = 1_500_000_000;
    let there = 6 * 960_000;
    let met = |tempo, playhead| clock.conditions(true, true, true, tempo, playhead, now);
    assert!(!is_interrupted(true, met(120_000, there)));
    assert!(!is_interrupted(true, met(120_001, there + 720_000)));
    assert!(met(120_002, there).tempo_changed);
    assert!(met(120_000, there + 720_001).drifted);
    assert!(met(120_000, 5 * 960_000 - 48_001).rewound);
    assert!(!met(120_000, 5 * 960_000 - 48_000).rewound);
}

#[test]
fn one_button_starts_and_ends_a_recording() {
    let mut piano: KeyboardPiano<&'static str> = KeyboardPiano::new();
    assert_eq!(piano.record_label(), "● Record");
    let refused = piano.toggle_keyboard_recording(None, 0, TRACK, stopped(), at(1.0));
    assert!(matches!(refused, RecordingToggle::Refused));
    assert!(piano.open);
    let started = piano.toggle_keyboard_recording(Some("clip"), 0, TRACK, stopped(), at(1.0));
    assert!(matches!(started, RecordingToggle::Started));
    assert_eq!(piano.record_label(), "■ Finish");
    press(&mut piano, letter(Key::A), false, 1.0);
    match piano.toggle_keyboard_recording(None, 0, None, stopped(), at(1.5)) {
        RecordingToggle::Finished(take) => {
            assert_eq!(take.target, "clip");
            assert_eq!(take.notes.len(), 1);
            assert_eq!(take.notes[0].pitch.note, 60);
        }
        _ => panic!("the recording must end"),
    }
    assert!(piano.open && piano.held.is_empty() && piano.take.is_none());
}

#[test]
fn closing_the_keyboard_ends_the_recording() {
    let mut piano = recording();
    press(&mut piano, letter(Key::A), false, 1.0);
    let take = piano.toggle_keyboard_piano(at(1.25)).unwrap();
    assert_eq!(take.notes.len(), 1);
    assert!(!piano.open && piano.held.is_empty());
    assert!(piano.toggle_keyboard_piano(at(2.0)).is_none());
    assert!(piano.open);
}

#[test]
fn a_take_can_be_saved_again() {
    let mut piano: KeyboardPiano<&'static str> = KeyboardPiano::new();
    assert!(piano.retry().is_none());
    piano.saved(take(true), Err("disk full".to_string()));
    assert!(piano.retry().unwrap().with_transport);
    assert!(piano.unsaved.is_none());
}

#[test]
fn the_keyboard_tells_about_its_instrument() {
    let status = |loading: bool, error: Option<&str>| {
        Some(KeyboardInstrumentStatus {
            loading,
            ready: false,
            error: error.map(str::to_string),
        })
    };
    assert_eq!(keyboard_remark(false, true, &None), InstrumentRemark::SelectClip);
    assert_eq!(keyboard_remark(true, true, &status(true, None)), InstrumentRemark::ChooseSample);
    assert_eq!(
        keyboard_remark(true, false, &status(true, Some("gone"))),
        InstrumentRemark::Unavailable
    );
    assert_eq!(keyboard_remark(true, false, &status(true, None)), InstrumentRemark::Loading);
    assert_eq!(keyboard_remark(true, false, &status(false, None)), InstrumentRemark::Nothing);
    assert_eq!(keyboard_remark(true, false, &None), InstrumentRemark::Nothing);
}

#[test]
fn the_keyboard_shows_its_octave_and_takes_grid_keys() {
    assert_eq!(octave_label(0), "C-1");
    assert_eq!(octave_label(12), "C0");
    assert_eq!(octave_label(60), "C4");
    let mut piano: KeyboardPiano<&'static str> = KeyboardPiano::new();
    piano.set_velocity(0);
    assert_eq!(piano.velocity, 1);
    piano.set_velocity(200);
    assert_eq!(piano.velocity, 127);
    piano.set_velocity(90);
    assert_eq!(piano.velocity, 90);
    piano.toggle_keyboard_piano(0);
    assert!(!piano.captures(true, true, false));
    piano.set_layout(Layout::SevenEdo, 0);
    assert!(piano.captures(true, true, false));
    assert!(!piano.captures(false, true, false));
    assert!(!piano.captures(true, true, true));
}

#[test]
fn black_keys_lie_between_white_ones() {
    assert_eq!(piano_place(0), (true, 0));
    assert_eq!(piano_place(1), (false, 1));
    assert_eq!(piano_place(5), (true, 3));
    assert_eq!(piano_place(6), (false, 4));
    assert_eq!(piano_place(16), (true, 9));
    let whites: Vec<u8> = (0..17).filter(|offset| piano_place(*offset).0).collect();
    assert_eq!(whites, [0, 2, 4, 5, 7, 9, 11, 12, 14, 16]);
}
