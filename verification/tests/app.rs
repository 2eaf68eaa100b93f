use gaw_app::clock::{
    format_audio_time, format_playhead_time, format_position, format_preview_time, TimeSignature,
    BEAT_PARTS,
};
use gaw_app::intents::{
    backspace_intent, handle_keyboard, Intent, PreviewKey, Pressed, Selection, Shortcut,
};
use gaw_app::persist::MediaRegion;
use gaw_app::shell::{
    chin_max_height, forehead_max_height, should_collapse_column, should_expand_collapsed_column,
    side_panel_max_widths, PanelInput, ShellPanels, ASSET_PANEL_MIN_WIDTH, COLLAPSED_PANEL_WIDTH,
    COLLAPSED_PANEL_PULL_THRESHOLD, EDITOR_MIN_HEIGHT, FOREHEAD_MIN_HEIGHT, MIDDLE_MIN_HEIGHT,
    SIGNAL_PANEL_MIN_WIDTH,
};
use gaw_app::tempo::{
    drop_tempo_decision, format_tempo, tempo_media_regions, tempo_mismatch, BpmDetection,
    DropTempoDecision, Tempo, TempoSectionDraft, TempoSync,
};

const ASSET_PANEL_WIDTH: i64 = 210_000;

fn beats(value: f64) -> i64 {
    (value * BEAT_PARTS as f64).round() as i64
}

fn nanos(seconds: f64) -> u64 {
    if seconds.is_finite() && seconds > 0.0 {
        (seconds * 1e9).round() as u64
    } else {
        0
    }
}

fn tempo(bpm: f64) -> u32 {
    (bpm * 1_000.0).round() as u32
}

fn untouched() -> Pressed {
    Pressed {
        space: false,
        home: false,
        backspace: false,
        escape: false,
        enter: false,
        l: false,
        command_r: false,
        command_shift_z: false,
        command_z: false,
        open_bracket: false,
        close_bracket: false,
    }
}

#[test]
fn position_format_is_musical() {
    let common = TimeSignature::default();
    assert_eq!(format_position(beats(0.0), common), "001 · 1 · 000");
    assert_eq!(format_position(beats(5.5), common), "002 · 2 · 480");
    assert_eq!(format_position(beats(0.999_99), common), "001 · 1 · 959");

    let three_four = TimeSignature::new(3, 4).unwrap();
    assert_eq!(format_position(beats(3.0), three_four), "002 · 1 · 000");
    assert_eq!(format_position(beats(5.5), three_four), "002 · 3 · 480");

    let six_eight = TimeSignature::new(6, 8).unwrap();
    assert_eq!(format_position(beats(0.5), six_eight), "001 · 2 · 000");
    assert_eq!(format_position(beats(3.0), six_eight), "002 · 1 · 000");
}

#[test]
fn playhead_time_format_tracks_project_tempo() {
    assert_eq!(format_playhead_time(beats(0.0), tempo(120.0)), "00:00.000");
    assert_eq!(format_playhead_time(beats(5.0), tempo(120.0)), "00:02.500");
    assert_eq!(format_playhead_time(beats(7_200.0), tempo(120.0)), "01:00:00.000");
    assert_eq!(format_playhead_time(beats(-1.0), tempo(120.0)), "00:00.000");
    assert_eq!(format_playhead_time(i64::MIN, tempo(120.0)), "00:00.000");
}

#[test]
fn tempo_prompt_ignores_rounding_noise_but_catches_real_mismatches() {
    assert!(!tempo_mismatch(tempo(120.0), tempo(120.0)));
    assert!(!tempo_mismatch(tempo(119.95), tempo(120.0)));
    assert!(tempo_mismatch(tempo(119.0), tempo(120.0)));
    assert!(tempo_mismatch(tempo(60.0), tempo(120.0)));
}

#[test]
fn tempo_prompt_only_opens_for_a_known_mismatch() {
    assert_eq!(
        drop_tempo_decision(None, tempo(120.0)),
        DropTempoDecision::Apply(TempoSync::Original)
    );
    assert_eq!(
        drop_tempo_decision(Some(tempo(120.0)), tempo(120.0)),
        DropTempoDecision::Apply(TempoSync::Stretch)
    );
    assert_eq!(
        drop_tempo_decision(Some(tempo(119.95)), tempo(120.0)),
        DropTempoDecision::Apply(TempoSync::Stretch)
    );
    assert_eq!(
        drop_tempo_decision(Some(tempo(110.0)), tempo(120.0)),
        DropTempoDecision::Prompt(tempo(110.0))
    );
}

#[test]
fn preview_time_format_is_compact_and_stable() {
    assert_eq!(format_preview_time(nanos(0.0)), "0:00.0");
    assert_eq!(format_preview_time(nanos(82.73)), "1:22.7");
    assert_eq!(format_preview_time(nanos(3_661.09)), "61:01.0");
    assert_eq!(format_preview_time(nanos(f64::NAN)), "0:00.0");
}

#[test]
fn backspace_deletes_the_selected_clip_and_otherwise_navigates_back() {
    assert!(matches!(
        backspace_intent(Selection::Clip { track: 2, clip: 3 }),
        Intent::DeleteClip { track: 2, clip: 3 }
    ));
    assert!(matches!(backspace_intent(Selection::Nothing), Intent::Back));
}

#[test]
fn side_panels_leave_room_for_a_split_screen_arrangement() {
    let shell_width = 952_000;
    let (assets, inspector) = side_panel_max_widths(shell_width, ASSET_PANEL_WIDTH, true, true);
    assert_eq!(assets, ASSET_PANEL_WIDTH);
    assert!(shell_width - assets - inspector >= 460_000);

    let (narrow_assets, narrow_signal) =
        side_panel_max_widths(700_000, ASSET_PANEL_WIDTH, true, true);
    assert!(narrow_assets < ASSET_PANEL_MIN_WIDTH);
    assert!(narrow_signal < SIGNAL_PANEL_MIN_WIDTH);

    let (reopened_assets, _) = side_panel_max_widths(700_000, ASSET_PANEL_WIDTH, true, false);
    assert_eq!(reopened_assets, ASSET_PANEL_WIDTH);

    let (_, reopened_signal) = side_panel_max_widths(700_000, ASSET_PANEL_WIDTH, false, true);
    assert!(reopened_signal >= SIGNAL_PANEL_MIN_WIDTH);
}

#[test]
fn vertical_panels_preserve_a_useful_middle() {
    for shell_height in [640_000, 900_000, 1_200_000] {
        let forehead_max = forehead_max_height(shell_height);
        let chin_max = chin_max_height(shell_height - forehead_max);
        assert!(forehead_max >= FOREHEAD_MIN_HEIGHT);
        assert!(chin_max >= EDITOR_MIN_HEIGHT);
        assert!(shell_height - forehead_max - chin_max >= MIDDLE_MIN_HEIGHT);
    }
}

#[test]
fn side_columns_collapse_only_below_their_useful_minimum() {
    assert!(!should_collapse_column(ASSET_PANEL_MIN_WIDTH, ASSET_PANEL_MIN_WIDTH));
    assert!(should_collapse_column(ASSET_PANEL_MIN_WIDTH - 1_000, ASSET_PANEL_MIN_WIDTH));
    assert!(!should_collapse_column(SIGNAL_PANEL_MIN_WIDTH, SIGNAL_PANEL_MIN_WIDTH));
    assert!(!should_expand_collapsed_column(COLLAPSED_PANEL_WIDTH));
    assert!(should_expand_collapsed_column(
        COLLAPSED_PANEL_WIDTH + COLLAPSED_PANEL_PULL_THRESHOLD + 1_000
    ));
}

#[test]
fn tempo_sections_materialize_detected_ranges_and_skip_uncertain_audio() {
    let usable = |value: f64| Tempo { value: tempo(value), accepted: true };
    let detection = BpmDetection {
        bpm: usable(120.0),
        half: Some(usable(60.0)),
        double: Some(usable(240.0)),
        confidence: 800,
        runner_up_confidence: 100,
    };
    let drafts = vec![
        TempoSectionDraft {
            start: nanos(0.0),
            end: nanos(4.0),
            detection: Some(detection),
            selected: 0,
        },
        TempoSectionDraft { start: nanos(4.0), end: nanos(6.0), detection: None, selected: 0 },
        TempoSectionDraft {
            start: nanos(6.0),
            end: nanos(10.0),
            detection: Some(detection),
            selected: 1,
        },
    ];
    let regions = tempo_media_regions(48_000, 480_000, &drafts).expect("valid regions");
    assert_eq!(
        regions,
        vec![
            MediaRegion { start_frame: 0, end_frame: 288_000, tempo: tempo(120.0) },
            MediaRegion { start_frame: 192_000, end_frame: 480_000, tempo: tempo(60.0) },
        ]
    );
}

#[test]
fn a_time_signature_needs_beats_and_a_power_of_two() {
    assert!(TimeSignature::new(0, 4).is_none());
    assert!(TimeSignature::new(4, 3).is_none());
    assert!(TimeSignature::new(4, 0).is_none());
    assert!(TimeSignature::new(7, 8).is_some());
}

#[test]
fn audio_times_and_tempos_are_written_in_fixed_digits() {
    assert_eq!(format_audio_time(nanos(0.0)), "0:00");
    assert_eq!(format_audio_time(nanos(61.25)), "1:01");
    assert_eq!(format_tempo(tempo(120.0), 0), "120");
    assert_eq!(format_tempo(tempo(119.95), 2), "119.95");
}

#[test]
fn one_panel_is_left_in_a_narrow_shell() {
    let mut panels = ShellPanels::new();
    let input = PanelInput {
        shell_width: 700_000,
        asset_width: ASSET_PANEL_WIDTH,
        fold_assets: false,
        open_assets: false,
        folded_width: COLLAPSED_PANEL_WIDTH,
        open_signal: false,
        signal_width: SIGNAL_PANEL_MIN_WIDTH,
    };
    panels.arrange(&input);
    assert!(!(panels.assets_expanded && panels.signal_expanded));
}

#[test]
fn shortcuts_rest_while_text_is_edited() {
    let pressed = Pressed { space: true, backspace: true, ..untouched() };
    let selection = Selection::Clip { track: 0, clip: 1 };
    let typing = handle_keyboard(pressed, true, false, selection, 5);
    assert_eq!(typing.intent, None);
    assert_eq!(typing.preview, None);
    assert_eq!(typing.taken, None);
}

#[test]
fn space_belongs_to_the_preview_of_an_open_tempo_dialog() {
    let pressed = Pressed { space: true, ..untouched() };
    let outcome = handle_keyboard(pressed, false, true, Selection::Nothing, 5);
    assert_eq!(outcome.preview, Some(PreviewKey::Toggle));
    assert_eq!(outcome.intent, None);
    let playing = handle_keyboard(pressed, false, false, Selection::Nothing, 5);
    assert_eq!(playing.intent, Some(Intent::TogglePlayback));
    assert_eq!(playing.taken, Some(Shortcut::Space));
}

#[test]
fn only_backspace_deletes_a_clip() {
    let selection = Selection::Clip { track: 4, clip: 2 };
    let deleting =
        handle_keyboard(Pressed { backspace: true, ..untouched() }, false, false, selection, 1);
    assert_eq!(deleting.intent, Some(Intent::DeleteClip { track: 4, clip: 2 }));
    let undoing =
        handle_keyboard(Pressed { command_z: true, ..untouched() }, false, false, selection, 1);
    assert_eq!(undoing.intent, Some(Intent::Undo(1)));
}
