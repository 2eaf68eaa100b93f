use gaw_app::equalizer::{
    area_mesh, automation_remark, band_hint, band_title, closest_band, curve_columns, frequency_grid, frequency_label, has_gain,
    has_slope, max_frequency, node_readout, paint_graph, slope, slope_label, total_curve,
    EqBand,
    EqEditorState, EqEvent, EqParameters, EqShape, FilterSlope, Triangle, GAIN_RANGE, MOST_BANDS,
    NODE_REACH,
};

const TOP: u32 = 20_000_000;

fn band(frequency: u32) -> EqBand {
    EqBand {
        enabled: true,
        shape: EqShape::Bell,
        frequency,
        gain: 0,
        q: 1_000,
        slope: FilterSlope::Db12,
    }
}

fn eight() -> EqParameters {
    let bands = [40, 100, 250, 600, 1_500, 4_000, 8_000, 14_000];
    EqParameters {
        bands: bands.iter().map(|hertz| band(hertz * 1_000)).collect(),
        output_gain: 0,
    }
}

struct Editor {
    state: EqEditorState,
    settings: EqParameters,
}

impl Editor {
    fn send(&mut self, event: EqEvent) -> gaw_app::equalizer::EqOutcome {
        self.state.equalizer_editor(&mut self.settings, event, band(1_000_000), TOP)
    }
}

#[test]
fn graph_drag_edits_its_scope_and_each_gesture_is_one_undo() {
    let mut editor = Editor { state: EqEditorState::new(), settings: eight() };
    let original = eight();
    for (frequency, gain) in [(700_000, 2_000), (900_000, 3_500)] {
        let before = editor.settings.bands[3];
        let outcome = editor.send(EqEvent::Press(Some(3)));
        assert!(outcome.begin && !outcome.changed && !outcome.end);
        let outcome = editor.send(EqEvent::Drag { frequency, gain });
        assert!(outcome.changed && !outcome.end);
        let outcome = editor.send(EqEvent::Release);
        assert!(outcome.end);
        assert!(editor.settings.bands[3].frequency > before.frequency);
        assert!(editor.settings.bands[3].gain > before.gain);
        for index in [0, 1, 2, 4, 5, 6, 7] {
            assert_eq!(editor.settings.bands[index], original.bands[index]);
        }
    }
}

#[test]
fn empty_saved_eq_can_add_a_band_from_the_editor() {
    let settings = EqParameters { bands: Vec::new(), output_gain: 0 };
    let mut editor = Editor { state: EqEditorState::new(), settings };
    assert!(editor.settings.bands.is_empty());
    let outcome = editor.send(EqEvent::AddBand);
    assert!(outcome.changed);
    assert_eq!(editor.settings.bands.len(), 1);
}

#[test]
fn hiding_editor_during_drag_does_not_move_a_band_on_later_empty_drag() {
    let mut editor = Editor { state: EqEditorState::new(), settings: eight() };
    editor.send(EqEvent::Press(Some(3)));
    editor.send(EqEvent::Drag { frequency: 700_000, gain: 2_000 });
    let edited = editor.settings.bands.clone();
    editor.send(EqEvent::Press(None));
    let outcome = editor.send(EqEvent::Drag { frequency: 2_000_000, gain: -3_000 });
    assert!(!outcome.changed);
    assert_eq!(
        editor.settings.bands, edited,
        "an empty graph drag cannot inherit the earlier grabbed band"
    );
}

#[test]
fn bands_are_counted_and_values_stay_in_range() {
    let mut editor = Editor { state: EqEditorState::new(), settings: eight() };
    assert!(!editor.send(EqEvent::AddBand).changed);
    assert_eq!(editor.settings.bands.len(), MOST_BANDS);
    editor.send(EqEvent::Select(2));
    editor.send(EqEvent::Gain(99_000));
    assert_eq!(editor.settings.bands[2].gain, GAIN_RANGE);
    editor.send(EqEvent::Q(1));
    assert_eq!(editor.settings.bands[2].q, 100);
    assert_eq!(editor.send(EqEvent::Remove(5)).remove, Some(5));
    assert_eq!(editor.state.selected, 4);
    assert!(editor.send(EqEvent::Bypass).bypass);
}

#[test]
fn the_nearest_node_in_reach_is_meant() {
    assert_eq!(closest_band(&vec![NODE_REACH - 1, 5, 9]), Some(1));
    assert_eq!(closest_band(&vec![NODE_REACH * 2]), None);
    assert_eq!(closest_band(&Vec::new()), None);
}

#[test]
fn the_curve_sums_what_is_heard() {
    let mut settings = eight();
    settings.output_gain = 1_500;
    settings.bands.push(band(16_000_000));
    settings.bands[1].enabled = false;
    let responses: Vec<Vec<i32>> = (0..9).map(|index| vec![index, -10 * index, 0]).collect();
    let levels = total_curve(&settings, true, &responses, 3);
    assert_eq!(levels, vec![1_500 + 27, 1_500 - 270, 1_500]);
    assert_eq!(total_curve(&settings, false, &responses, 3), vec![0, 0, 0]);
    let loud = vec![vec![i32::MAX]; 8];
    assert_eq!(total_curve(&settings, true, &loud, 1), vec![7 * i64::from(i32::MAX) + 1_500]);
}

#[test]
fn bands_are_described() {
    assert_eq!(band_hint(0, &band(250_000)), "Band 1 · Bell · 250 Hz");
    let off = EqBand { enabled: false, ..band(250_000) };
    assert_eq!(band_hint(1, &off), "Band 2 · Bell · 250 Hz · off");
    assert_eq!(frequency_label(250_000), "250 Hz");
    assert_eq!(frequency_label(1_500_000), "1.5 kHz");
    assert!(band_title(0, &band(250_000)).starts_with('1'));
    assert!(node_readout(0, &band(250_000)).contains("250 Hz"));
    assert_eq!(slope(FilterSlope::Db24), 24);
    assert!(slope_label(FilterSlope::Db48).starts_with("48 dB"));
    assert!(has_gain(EqShape::Bell) && !has_gain(EqShape::LowPass));
    assert!(has_slope(EqShape::HighPass) && !has_slope(EqShape::Bell));
}

#[test]
fn the_graph_ends_below_half_the_sample_rate() {
    assert!(max_frequency(44_100) <= 22_050_000);
    assert!(max_frequency(16_000) <= 8_000_000);
    assert!(curve_columns(600_000) > 80);
    assert!(frequency_grid(600_000, TOP).iter().all(|(frequency, _)| *frequency <= TOP));
}

#[test]
fn areas_are_filled_by_two_triangles_for_each_column() {
    let triangles = area_mesh(3);
    assert_eq!(triangles.len(), 6);
    assert_eq!(triangles[0], Triangle { first: 0, second: 1, third: 2 });
    assert!(triangles.iter().all(|triangle| triangle.third < 8));
}

#[test]
fn a_bypassed_band_shows_no_curve() {
    let style = paint_graph(&band(250_000), 0, true, Some(0));
    assert!(style.filled && style.ring && style.curve && style.area);
    let off = EqBand { enabled: false, ..band(250_000) };
    let style = paint_graph(&off, 0, true, Some(1));
    assert!(!style.ring && !style.area);
}

#[test]
fn automated_settings_are_remarked_on() {
    assert_eq!(automation_remark(0), None);
    assert_eq!(
        automation_remark(2).unwrap(),
        "2 AUTOMATION LANE(S) · curve shows base settings"
    );
}
