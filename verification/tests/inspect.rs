use gaw_app::clock::TimeSignature;
use gaw_app::controller::RenderState;
use gaw_app::editors::{waveform_editor, AudioClipEdit, WaveformSubject};
use gaw_app::inspectors::{
    act_on_stack, edits_master, inspector, midi_asset_inspector, reach, sampler_inspector,
    scope_places, signal_scope_switch, signal_stack_inspector, split_label, stack_heading,
    switch_label,
    AssetDetails, InspectorKind, ProcessorStack, SamplerTrack, StackAction, StackEvent, TempoEvent,
    TempoTools, USUAL_TEMPO,
};
use gaw_app::intents::{Intent, Selection};
use gaw_app::numbers::{push_fixed, Precision};
use gaw_app::parameters::{
    automation_label, counter_range, field_choices, field_range, identity_text, item_title,
    lanes_text, measure, measure_range, most_items, new_item, offered_units, opens_items,
    parameter_edit, parameter_widget, readable, slider_range, structured_field_edit,
    structured_field_widget, structured_list_widget, whole_range, FieldEdit, FieldWidget, ListEdit,
    MeasureRange, ParameterEdit, ParameterValueType, Value, Widget,
};
use gaw_app::piano_roll::{
    beat_lines, on_grid, row_at, row_label, rows_moved, PianoRoll, RollClip, RollEvent, RollNote,
    GRID_STEP, PIANO_HIGH_PITCH, PIANO_LOW_PITCH,
};
use gaw_app::signal::{
    format_gain, AudioDetails, ClipButton, ClipContent, ClipPath, EffectInfo, Scope, SignalAction,
    SignalEvent, SignalRow,
};
use gaw_app::transport::{
    frame_step, redraw_after, transport_bar, zoom_text, TransportAction, TransportEvent,
    TransportView, FASTEST_TEMPO, LONGEST_STEP, SLOWEST_TEMPO,
};

const BEAT: i64 = 960_000;
const SECOND: u64 = 1_000_000_000;

fn view() -> TransportView {
    TransportView {
        playing: false,
        recording: false,
        loop_enabled: false,
        metronome_enabled: false,
        metronome_gain: 500,
        playhead: 5 * BEAT + BEAT / 2,
        tempo: 120_000,
        meter: TimeSignature::default(),
        structure_lens: false,
        can_navigate_back: false,
        depth: 1,
        sound_ready: true,
    }
}

#[test]
fn the_bar_turns_clicks_into_intents() {
    let act = |event| transport_bar(&view(), event, 7);
    assert_eq!(act(TransportEvent::Play), Some(TransportAction::Apply(Intent::TogglePlayback)));
    assert_eq!(act(TransportEvent::Back), None);
    assert_eq!(
        act(TransportEvent::Tempo(500_000)),
        Some(TransportAction::Apply(Intent::SetBpm(FASTEST_TEMPO)))
    );
    assert_eq!(
        act(TransportEvent::Tempo(1)),
        Some(TransportAction::Apply(Intent::SetBpm(SLOWEST_TEMPO)))
    );
    assert_eq!(
        act(TransportEvent::AgentPulse),
        Some(TransportAction::Apply(Intent::SimulateAgentChange(7)))
    );
    assert_eq!(act(TransportEvent::ZoomIn), Some(TransportAction::ZoomIn));
}

#[test]
fn the_bar_shows_position_and_time() {
    let labels = view().labels();
    assert_eq!(labels.position, "002 · 2 · 480");
    assert_eq!(labels.time, "00:02.750");
    assert!(view().is_current(0));
}

#[test]
fn frames_never_step_far() {
    assert_eq!(frame_step(None, 5), 0);
    assert_eq!(frame_step(Some(5), 9), 4);
    assert_eq!(frame_step(Some(0), 10 * SECOND), LONGEST_STEP);
    assert_eq!(redraw_after(false, false, false), None);
    assert!(redraw_after(true, false, true).is_some());
    assert!(!zoom_text(40_000).is_empty());
}

fn clip() -> RollClip {
    RollClip {
        track: 1,
        clip: 2,
        start: 4 * BEAT,
        length: 4 * BEAT,
        notes: vec![RollNote {
            event_index: 9,
            start: BEAT,
            length: BEAT,
            pitch: 60,
            velocity: 100,
        }],
    }
}

#[test]
fn notes_are_added_at_the_playhead() {
    let mut roll = PianoRoll::new();
    let intent = roll.piano_roll_editor(&clip(), RollEvent::AddAtPlayhead(5 * BEAT)).unwrap();
    assert!(matches!(intent, Intent::AddNote { track: 1, clip: 2, .. }));
}

#[test]
fn notes_are_dragged_and_stay_on_the_keyboard() {
    let mut roll = PianoRoll::new();
    roll.piano_roll_editor(&clip(), RollEvent::Click(9));
    assert_eq!(roll.selected, Some(9));
    let up = RollEvent::Drag { event_index: 9, delta: GRID_STEP, rows: -1_000 };
    match roll.piano_roll_editor(&clip(), up) {
        Some(Intent::EditNote { event_index: 9, pitch, start, .. }) => {
            assert!(pitch <= PIANO_HIGH_PITCH);
            assert!(start >= 0);
        }
        intent => panic!("unexpected intent: {intent:?}"),
    }
    assert_eq!(roll.selected, None);
    roll.piano_roll_editor(&clip(), RollEvent::Click(9));
    let intent = roll.piano_roll_editor(&clip(), RollEvent::DeleteKey);
    assert_eq!(intent, Some(Intent::DeleteNote { track: 1, clip: 2, event_index: 9 }));
    assert_eq!(roll.selected, None);
}

#[test]
fn rows_are_counted_from_the_top() {
    assert_eq!(rows_moved(0, 490), 0);
    assert_eq!(row_at(0, 490), 0);
    assert!(on_grid(60));
    assert_eq!(row_label(60).as_deref(), Some("C4"));
    assert_eq!(row_label(PIANO_LOW_PITCH + 1), None);
    assert_eq!(beat_lines(4 * BEAT), 4);
}

fn effect(id: &str, kind: &str) -> EffectInfo {
    EffectInfo {
        id: id.to_string(),
        kind: kind.to_string(),
        name: kind.to_string(),
        enabled: true,
    }
}

fn path(content: ClipContent) -> ClipPath {
    ClipPath {
        track: 1,
        clip: 2,
        clip_id: "clip".to_string(),
        clip_name: "Take".to_string(),
        track_id: "track".to_string(),
        track_name: "Guitar".to_string(),
        composition_id: "root".to_string(),
        composition_name: "Song".to_string(),
        composition_path: "song".to_string(),
        content,
        gain: -6_000,
        project_tempo: 120_000,
        structure_lens: false,
        has_clip_stack: true,
        has_track_stack: true,
        effects: vec![effect("a", "Gain"), effect("b", "Delay")],
        track_effects: Vec::new(),
        output_effects: Vec::new(),
        selection: Selection::Clip { track: 1, clip: 2 },
    }
}

fn audio() -> ClipContent {
    ClipContent::Audio {
        details: Some(AudioDetails {
            source_start: 0,
            source_duration: 2 * SECOND,
            reverse: false,
            fade_in: false,
            fade_out: false,
        }),
        asset_id: None,
        source_tempo: Some(120_000),
        sync_label: "Stretch".to_string(),
    }
}

#[test]
fn the_signal_path_numbers_its_stages() {
    let rows = path(audio()).clip_inspector();
    let orders: Vec<usize> = rows
        .iter()
        .filter_map(|row| match row {
            SignalRow::Node { order, .. } => Some(*order),
            _ => None,
        })
        .collect();
    assert!(orders.len() >= 4);
    for (place, order) in orders.iter().enumerate() {
        assert_eq!(*order, orders[0] + place);
    }
    assert_eq!(format_gain(-6_000), "-6.0 dB");
    assert_eq!(format_gain(3_500), "+3.5 dB");
}

#[test]
fn effects_of_a_clip_are_moved_and_removed() {
    let path = path(audio());
    assert_eq!(
        path.act(SignalEvent::Toggle { scope: Scope::Clip, index: 1 }),
        Some(SignalAction::Apply(Intent::ToggleEffect { track: 1, clip: 2, effect: 1 }))
    );
    assert!(path.act(SignalEvent::Up { scope: Scope::Clip, index: 0 }).is_none());
    assert!(path.act(SignalEvent::Up { scope: Scope::Clip, index: 1 }).is_some());
    assert!(path.act(SignalEvent::Remove { scope: Scope::Track, index: 0 }).is_none());
}

#[test]
fn a_nested_composition_can_be_entered() {
    let nested = path(ClipContent::Composition {
        child: "child".to_string(),
        render: RenderState::Fresh,
    });
    assert_eq!(
        nested.act(SignalEvent::Button(ClipButton::OpenComposition)),
        Some(SignalAction::Apply(Intent::EnterChild { track: 1, clip: 2 }))
    );
}

#[test]
fn the_inspector_follows_the_selection() {
    assert_eq!(inspector(Selection::Nothing), InspectorKind::Empty);
    assert_eq!(inspector(Selection::Asset(3)), InspectorKind::Asset(3));
    assert_eq!(inspector(Selection::MidiAsset(3)), InspectorKind::MidiAsset(3));
    assert_eq!(
        inspector(Selection::Clip { track: 1, clip: 2 }),
        InspectorKind::Clip { track: 1, clip: 2 }
    );
    assert_eq!(scope_places(Selection::Clip { track: 1, clip: 2 }), (Some(1), Some(2)));
    assert_eq!(scope_places(Selection::Nothing), (None, None));
}

fn details() -> AssetDetails {
    AssetDetails {
        id: "asset".to_string(),
        name: "loop.wav".to_string(),
        path: "assets/loop".to_string(),
        definition: "imported".to_string(),
        media_path: Some("media/loop.wav".to_string()),
        content_hash: Some("hash".to_string()),
        channels: 2,
        tempo: Some(100_000),
        first_beat: None,
        duration: 10 * SECOND,
        sample_rate: 48_000,
        frames: 480_000,
        revisions: 0,
        current_revision: None,
    }
}

#[test]
fn tempos_are_halved_doubled_and_tapped() {
    let mut tools = TempoTools::new();
    let asset = details();
    let half = tools.edit(&asset, TempoEvent::Half).unwrap();
    assert_eq!(half.tempo, 50_000);
    let double = tools.edit(&asset, TempoEvent::Double).unwrap();
    assert_eq!(double.tempo, 200_000);
    let usual = tools.edit(&asset, TempoEvent::Usual).unwrap();
    assert_eq!(usual.tempo, u64::from(USUAL_TEMPO));
    assert!(tools.edit(&asset, TempoEvent::Tap(SECOND)).is_none());
    let tapped = tools.edit(&asset, TempoEvent::Tap(SECOND + SECOND / 2)).unwrap();
    assert_eq!(tapped.tempo, 120_000);
    let late = tools.edit(&asset, TempoEvent::FirstBeat(99 * SECOND)).unwrap();
    assert!(late.first_beat <= asset.duration);
}

#[test]
fn assets_are_described_more_closely_under_the_lens() {
    let asset = details();
    let plain = asset.asset_inspector(false);
    let close = asset.asset_inspector(true);
    assert!(close.len() > plain.len());
    assert!(!asset.media_rows().is_empty());
    assert!(!asset.is_processed());
    assert!(asset.stem_button(true, false).1);
    assert!(!asset.stem_button(true, true).1);
    let midi = midi_asset_inspector("take", "id", "path", 3, 4 * BEAT as u64, false);
    assert!(!midi.is_empty());
    let track = SamplerTrack {
        id: "track".to_string(),
        name: "Drums".to_string(),
        path: "tracks/drums".to_string(),
        zones: Vec::new(),
    };
    assert!(!sampler_inspector(&Some(track), false).is_empty());
}

#[test]
fn stacks_are_switched_and_edited() {
    let stack = ProcessorStack::Track(5);
    let (clip, track, output) = signal_scope_switch(None, Some(5), 1, 1, Some(stack));
    assert!(clip.stack.is_none() && !clip.selected);
    assert!(track.selected && track.stack == Some(stack));
    assert!(output.stack.is_some() && !output.selected);
    assert!(edits_master(2, 1, Some(ProcessorStack::CompositionOutput(1))));
    assert!(!edits_master(1, 1, Some(stack)));
    assert_ne!(reach(stack, 1), reach(ProcessorStack::CompositionOutput(1), 1));
    let act = |event| act_on_stack(stack, Selection::Track { track: 0 }, true, 2, event);
    assert_eq!(
        act(StackEvent::Down(0)),
        Some(StackAction::Move { stack, index: 0, delta: 1 })
    );
    assert_eq!(act(StackEvent::Down(1)), None);
    assert_eq!(act(StackEvent::Remove(1)), Some(StackAction::Remove { stack, index: 1 }));
    assert_eq!(act(StackEvent::Remove(2)), None);
}

#[test]
fn the_rows_of_a_stack_know_their_neighbours() {
    let effects = vec![effect("a", "Gain"), effect("b", "gaw.parametric_eq")];
    let rows = signal_stack_inspector(&effects, &Some("b".to_string()));
    assert_eq!(rows.len(), 2);
    assert!(!rows[0].up && rows[0].down && !rows[0].selected);
    assert!(rows[1].up && !rows[1].down && rows[1].selected);
    assert_eq!(stack_heading("TRACK · Guitar"), "TRACK EFFECTS");
    assert_eq!(split_label("A · B"), ("A".to_string(), "B".to_string()));
}

#[test]
fn waveforms_show_an_asset_or_a_clip() {
    assert_eq!(waveform_editor(Selection::Asset(1), 2, false), WaveformSubject::Asset(1));
    assert_eq!(waveform_editor(Selection::Asset(2), 2, false), WaveformSubject::Nothing);
    assert_eq!(
        waveform_editor(Selection::Clip { track: 0, clip: 0 }, 0, true),
        WaveformSubject::Clip
    );
    assert_eq!(WaveformSubject::Asset(1).first_beat_mark(Some(SECOND), 4 * SECOND), Some(250));
    assert_eq!(WaveformSubject::Asset(1).info(), "ASSET BPM · FIRST BEAT · SOURCE RANGE");
    assert_eq!(WaveformSubject::Nothing.info(), "SOURCE");
    assert_eq!(AudioClipEdit::offered(true).len(), 5);
    assert!(AudioClipEdit::offered(false).is_empty());
}

#[test]
fn parameters_get_the_widget_of_their_type() {
    let number = Value::Real(1.5f64.to_bits());
    assert_eq!(
        parameter_widget(ParameterValueType::Number, &number, "logarithmic", true),
        Widget::Slider { logarithmic: true }
    );
    assert_eq!(
        parameter_widget(ParameterValueType::Boolean, &Value::Flag(true), "", false),
        Widget::Switch(true)
    );
    assert_eq!(
        parameter_widget(ParameterValueType::Boolean, &Value::Missing, "", false),
        Widget::Nothing
    );
    let time = measure("beats".to_string(), 1);
    assert_eq!(time.unit().as_deref(), Some("beats"));
    assert!(matches!(
        parameter_widget(ParameterValueType::Time, &time, "", false),
        Widget::Measure(MeasureRange::Own | MeasureRange::Beats)
    ));
    assert_ne!(offered_units(ParameterValueType::Time), offered_units(ParameterValueType::Rate));
}

fn edited(sort: ParameterValueType, value: Value, edit: ParameterEdit) -> Option<Value> {
    let choices = vec!["soft".to_string(), "hard".to_string()];
    parameter_edit(sort, value, &choices, "bands", edit)
}

#[test]
fn an_edit_of_a_parameter_gives_its_new_value() {
    let half = 0.5f64.to_bits();
    assert!(matches!(
        edited(ParameterValueType::Number, Value::Unsigned(3), ParameterEdit::Number(half)),
        Some(Value::Real(bits)) if bits == half
    ));
    assert!(matches!(
        edited(ParameterValueType::Integer, Value::Unsigned(3), ParameterEdit::Counter(9)),
        Some(Value::Unsigned(9))
    ));
    assert!(edited(ParameterValueType::Integer, Value::Unsigned(3), ParameterEdit::Whole(-9))
        .is_none());
    assert!(matches!(
        edited(ParameterValueType::Integer, Value::Signed(-3), ParameterEdit::Whole(-9)),
        Some(Value::Signed(-9))
    ));
    assert!(matches!(
        edited(ParameterValueType::Integer, Value::Signed(-3), ParameterEdit::Whole(4)),
        Some(Value::Unsigned(4))
    ));
    assert!(matches!(
        edited(ParameterValueType::Boolean, Value::Flag(true), ParameterEdit::Switch),
        Some(Value::Flag(false))
    ));
    let soft = || Value::Text("soft".to_string());
    match edited(ParameterValueType::Choice, soft(), ParameterEdit::Choose(1)) {
        Some(Value::Text(text)) => assert_eq!(text, "hard"),
        value => panic!("unexpected value: {value:?}"),
    }
    assert!(edited(ParameterValueType::Choice, soft(), ParameterEdit::Choose(0)).is_none());
    let rate = || measure("hertz".to_string(), 1);
    let still = ParameterEdit::Measure { number: half, moved: false, unit: Some(false) };
    assert!(edited(ParameterValueType::Rate, rate(), still).is_none());
    let other = ParameterEdit::Measure { number: half, moved: false, unit: Some(true) };
    let value = edited(ParameterValueType::Rate, rate(), other).unwrap();
    assert_eq!(value.unit().as_deref(), Some("beats"));
    let time = ParameterEdit::Measure { number: half, moved: false, unit: Some(true) };
    let value = edited(ParameterValueType::Time, rate(), time).unwrap();
    assert_eq!(value.unit().as_deref(), Some("seconds"));
    let empty = || Value::List(Vec::new());
    let removal = ParameterEdit::List(ListEdit::Remove(0));
    assert!(edited(ParameterValueType::List, empty(), removal).is_none());
    match edited(ParameterValueType::List, empty(), ParameterEdit::List(ListEdit::Append)) {
        Some(Value::List(items)) => assert_eq!(items.len(), 1),
        value => panic!("unexpected value: {value:?}"),
    }
}

#[test]
fn parameters_without_a_range_have_a_usual_one() {
    assert_eq!(slider_range(None), (-1_000_000_000, 1_000_000_000));
    assert_eq!(slider_range(Some((-5, 5))), (-5, 5));
    assert_eq!(counter_range(None), (0, u64::MAX));
    assert_eq!(counter_range(Some((-2_500, 2_500))), (0, 2));
    assert_eq!(whole_range(None), (i64::MIN, i64::MAX));
    assert_eq!(whole_range(Some((-2_500, 2_500))), (-2, 2));
    assert_eq!(measure_range(MeasureRange::Own, None), (0, 64_000_000));
    assert_eq!(measure_range(MeasureRange::Own, Some((1, 2))), (1_000, 2_000));
    assert_eq!(measure_range(MeasureRange::Hertz, None), (10_000, 40_000_000));
    assert_eq!(measure_range(MeasureRange::Beats, None), (15_625, 64_000_000));
}

/// The fields of a record.
fn fields(value: &Value) -> Vec<(&str, String)> {
    match value {
        Value::Record(fields) => fields
            .iter()
            .map(|(key, value)| {
                let text = match value {
                    Value::Flag(on) => on.to_string(),
                    Value::Real(bits) => f64::from_bits(*bits).to_string(),
                    Value::Text(text) => text.clone(),
                    value => panic!("unexpected value: {value:?}"),
                };
                (key.as_str(), text)
            })
            .collect(),
        value => panic!("unexpected value: {value:?}"),
    }
}

#[test]
fn new_items_start_from_a_flat_band_or_a_full_level() {
    let band: Vec<(&str, String)> = [
        ("enabled", "true"),
        ("shape", "bell"),
        ("frequency_hz", "1000"),
        ("gain_db", "0"),
        ("q", "0.707"),
        ("slope_db_per_octave", "db12"),
    ]
    .iter()
    .map(|(key, text)| (*key, text.to_string()))
    .collect();
    assert_eq!(fields(&new_item("bands")), band);
    assert_eq!(fields(&new_item("taps")), vec![("level", "1".to_string())]);
}

#[test]
fn fields_of_items_are_edited_in_place() {
    let mut list = Value::List(vec![new_item("bands")]);
    let mut edit = |field, edit| {
        let edit = ListEdit::Field { index: 0, field, edit };
        structured_list_widget(&mut list, "bands", edit)
    };
    assert!(edit(0, FieldEdit::Switch));
    assert!(edit(1, FieldEdit::Choose(6)));
    assert!(!edit(1, FieldEdit::Choose(6)));
    assert!(!edit(1, FieldEdit::Type("comb".to_string())));
    assert!(edit(2, FieldEdit::Number(440.0f64.to_bits())));
    assert!(!edit(0, FieldEdit::Number(0)));
    assert!(!edit(6, FieldEdit::Switch));
    match &list {
        Value::List(items) => {
            let shown = fields(&items[0]);
            assert_eq!(shown[0], ("enabled", "false".to_string()));
            assert_eq!(shown[1], ("shape", "notch".to_string()));
            assert_eq!(shown[2], ("frequency_hz", "440".to_string()));
            assert_eq!(shown[3], ("gain_db", "0".to_string()));
        }
        value => panic!("unexpected value: {value:?}"),
    }
    let mut name = Value::Text("a".to_string());
    assert!(structured_field_edit("name", &mut name, FieldEdit::Type("b".to_string())));
    assert!(!structured_field_edit("name", &mut name, FieldEdit::Type("b".to_string())));
    assert!(!structured_field_edit("name", &mut name, FieldEdit::Switch));
}

#[test]
fn lists_of_parameters_grow_only_so_far() {
    let limit = most_items("bands");
    let mut list = Value::List(Vec::new());
    for _ in 0..limit + 3 {
        structured_list_widget(&mut list, "bands", ListEdit::Append);
    }
    match &list {
        Value::List(items) => assert_eq!(items.len(), limit),
        value => panic!("unexpected value: {value:?}"),
    }
    assert!(structured_list_widget(&mut list, "bands", ListEdit::Remove(0)));
    assert!(!structured_list_widget(&mut list, "bands", ListEdit::Remove(limit)));
}

#[test]
fn fields_are_named_and_bounded() {
    let (low, high) = field_range("frequency_hz");
    assert!(low < high);
    assert!(!field_choices("shape").is_empty());
    assert_eq!(structured_field_widget("enabled", &Value::Flag(true)), FieldWidget::Switch(true));
    assert!(readable("attack_ms").contains(' '));
    assert!(item_title("bands", 0).contains('1'));
    assert!(opens_items(8) && !opens_items(9));
    assert_eq!(automation_label(true), "AUTOMATABLE");
    assert_eq!(automation_label(false), "STATIC");
    assert_eq!(switch_label(true), "ON");
    assert_eq!(switch_label(false), "OFF");
    assert!(lanes_text(0).is_none());
    assert!(lanes_text(2).unwrap().contains('2'));
    assert!(identity_text("gain", "dB").contains("gain"));
}

/// Texts agree with what a floating-point number of the same value shows.
#[test]
fn numbers_show_as_floating_point_does() {
    let text = |value: u64, unit: u64, digits: u64, precision: Precision| {
        let mut text = String::new();
        push_fixed(&mut text, value, unit, digits, precision);
        text
    };
    let values = [
        0, 1, 2, 5, 15, 25, 35, 45, 125, 345, 999, 1_005, 1_015, 1_025, 2_345, 2_675, 98_250,
        120_350, 120_450, 127_500, 999_995, 16_777_217, 16_777_219_005, 123_456_789_015,
    ];
    for value in values {
        let double = value as f64 / 1_000.0;
        let single = double as f32;
        assert_eq!(text(value, 1_000, 0, Precision::Double), format!("{double:.0}"));
        assert_eq!(text(value, 1_000, 1, Precision::Double), format!("{double:.1}"));
        assert_eq!(text(value, 1_000, 2, Precision::Double), format!("{double:.2}"));
        assert_eq!(text(value, 1_000, 0, Precision::Single), format!("{single:.0}"));
        assert_eq!(text(value, 1_000, 1, Precision::Single), format!("{single:.1}"));
        assert_eq!(text(value, 1_000, 2, Precision::Single), format!("{single:.2}"));
        assert_eq!(text(value, 1_000, 3, Precision::Single), format!("{single:.3}"));
        let millis = value as f64 * 1_000.0 / 44_100.0;
        assert_eq!(text(value * 1_000, 44_100, 2, Precision::Double), format!("{millis:.2}"));
    }
}
