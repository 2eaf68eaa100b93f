use gaw_app::sampler::{
    empty_picker, find_zone, listen_from, sampler_asset_picker, sampler_editor,
    sampler_playback_controls, shortest_slice, source_duration, zone_slice, zones_title,
    Playback, PreviewState, SampleAction, SampleEvent, SampleSource, SamplerEditor,
    SamplerSettings, SamplerZone, SettingsEdit, TrackSettings, VoiceStealing, ZoneEdit,
    ZoneListAction, ZoneListEvent,
};
use gaw_app::slice::{Drag, DragKind, Slice, SliceInput, SliceResponse, SliceSource, SliceView, ZoomButton};

const SECOND: i64 = 1_000_000_000;
const DURATION: i64 = 10 * SECOND;
const WIDTH: u32 = 582_000;
const TRACK: u128 = 3;
const ASSET: u128 = 40;

fn nanos(seconds: f64) -> i64 {
    (seconds * 1e9).round() as i64
}

fn zone(id: u128) -> SamplerZone {
    SamplerZone {
        id,
        name: "Kick".to_string(),
        asset_id: ASSET,
        source_start: 0,
        source_duration: SECOND,
        root_note: 60,
        low_note: 0,
        high_note: 127,
        low_velocity: 0,
        high_velocity: 127,
        one_shot: false,
        reverse: false,
        gain: 0,
        velocity_sensitivity: 1_000,
        attack: 0,
        release: 0,
        choke_group: None,
    }
}

fn settings() -> TrackSettings {
    TrackSettings { polyphony: None, voice_stealing: None, output_gain: None }
}

fn source() -> SampleSource {
    SampleSource { duration: DURATION, shortest: shortest_slice(48_000, DURATION) }
}

fn same(left: &Option<SamplerZone>, right: &SamplerZone) -> bool {
    left.as_ref().is_some_and(|zone| zone.same(right))
}

#[test]
fn deleted_layer_recovers_and_new_layer_stays_unselected() {
    let mut zones = vec![zone(1), zone(2)];
    let mut editor = SamplerEditor::open(TRACK, true, &zones).unwrap();
    zones.remove(0);
    editor.sync(&zones);
    assert!(same(&editor.draft, &zones[0]));
    assert!(editor.zone_id.is_some());
    editor.select_zone(None);
    editor.sync(&zones);
    assert!(editor.zone_id.is_none());
    assert!(editor.draft.is_none());
    editor.select_zone(zones.first());
    zones.remove(0);
    editor.sync(&zones);
    assert!(editor.zone_id.is_none());
    assert!(editor.draft.is_none());
}

#[test]
fn draft_survives_frames_until_an_external_edit() {
    let mut zones = vec![zone(1)];
    let mut editor = SamplerEditor::open(TRACK, true, &zones).unwrap();
    let revision = editor.waveform_revision;
    editor.draft.as_mut().unwrap().source_start = nanos(0.25);
    editor.sync(&zones);
    assert_eq!(editor.waveform_revision, revision);
    assert_eq!(editor.draft.as_ref().unwrap().source_start, nanos(0.25));
    zones[0].reverse = true;
    editor.sync(&zones);
    let baseline = editor.baseline.as_ref().unwrap().copy();
    assert!(same(&editor.draft, &baseline));
    assert!(editor.draft.as_ref().unwrap().reverse);
    assert_ne!(editor.waveform_revision, revision);
}

#[test]
fn clicking_audio_creates_a_playable_layer_and_reclick_preserves_trim() {
    let mut zones = Vec::new();
    let mut editor = SamplerEditor::open(TRACK, true, &zones).unwrap();
    assert!(editor.takes(ASSET, true));
    zones.push(zone(1));
    editor.assigned(Ok(1));
    editor.sync(&zones);
    let layer = editor.draft.as_ref().unwrap();
    assert_eq!(layer.asset_id, ASSET);
    assert_eq!((layer.low_note, layer.high_note), (0, 127));
    zones[0].source_start = nanos(0.1);
    zones[0].source_duration = nanos(0.2);
    editor.sync(&zones);
    assert!(!editor.takes(ASSET, true));
    assert!(same(&editor.draft, &zones[0]));
    assert!(editor.takes(ASSET + 1, true));
    assert!(!editor.takes(ASSET + 1, false));
}

#[test]
fn preview_space_shortcut_ignores_typing_and_key_repeat() {
    let run = |typing, repeat| sampler_playback_controls(true, typing, false, true, repeat, false);
    assert!(run(false, false));
    assert!(!run(false, true));
    assert!(!run(true, false));
}

#[test]
fn all_keys_expands_a_legacy_c4_zone_without_changing_the_sample() {
    let mut original = zone(1);
    original.low_note = 60;
    original.high_note = 60;
    let zones = vec![original.copy()];
    let mut editor = SamplerEditor::open(TRACK, true, &zones).unwrap();
    assert!(editor.draft.as_ref().unwrap().lacks_keys());
    let action = editor.sampler_sample_controls(
        &zones,
        &settings(),
        SampleEvent::Edit(ZoneEdit::AllKeys),
        &source(),
    );
    let mut expected = original.copy();
    expected.low_note = 0;
    expected.high_note = 127;
    match action {
        SampleAction::UpdateZone { index, zone } => {
            assert_eq!(index, 0);
            assert!(zone.same(&expected));
        }
        action => panic!("unexpected action: {action:?}"),
    }
}

/// A waveform with a pointer over it.
struct Waveform {
    view: SliceView,
    slice: Slice,
}

impl Waveform {
    fn new(start: f64, end: f64) -> Self {
        let mut waveform = Self {
            view: SliceView::new(),
            slice: Slice { start: nanos(start), end: nanos(end) },
        };
        waveform.frame(still());
        waveform
    }

    fn frame(&mut self, input: SliceInput) -> SliceResponse {
        let source = SliceSource { duration: DURATION, min_length: nanos(0.01) };
        self.view.slice_waveform(&mut self.slice, &source, &input)
    }

    fn drag(&mut self, from: f64, to: f64) -> SliceResponse {
        let start = point(from);
        self.frame(SliceInput { pressed: Some(start), pointer: Some(start), ..still() });
        let end = point(to);
        let changed = self.frame(SliceInput { pointer: Some(end), ..still() });
        assert!(changed.changed);
        assert!(!changed.finished);
        self.frame(SliceInput { pointer: Some(end), released: true, ..still() })
    }

    fn is(&self, start: f64, end: f64, error: f64) -> bool {
        (self.slice.start - nanos(start)).abs() <= nanos(error)
            && (self.slice.end - nanos(end)).abs() <= nanos(error)
    }
}

fn still() -> SliceInput {
    SliceInput {
        width: WIDTH,
        button: None,
        hover: None,
        zoom: 1_000,
        pan: 0,
        ruler: None,
        pressed: None,
        pointer: None,
        released: false,
        shift: false,
    }
}

fn point(time: f64) -> i32 {
    (time / 10.0 * f64::from(WIDTH)).round() as i32
}

#[test]
fn dragging_empty_audio_selects_a_slice_and_commits_only_on_release() {
    let mut waveform = Waveform::new(2.0, 4.0);
    let response = waveform.drag(8.0, 5.0);
    assert!(response.finished);
    assert!(waveform.is(5.0, 8.0, 0.02));
    assert!(!waveform.frame(still()).finished);
}

#[test]
fn dragging_inside_the_full_source_creates_a_slice() {
    let mut waveform = Waveform::new(0.0, 10.0);
    assert!(waveform.drag(3.0, 7.0).finished);
    assert!(waveform.is(3.0, 7.0, 0.02));
}

#[test]
fn handles_keep_a_nonempty_slice_and_clamp_to_source() {
    let mut waveform = Waveform::new(2.0, 4.0);
    assert!(waveform.drag(2.0, 5.0).finished);
    assert!(waveform.is(3.99, 4.0, 0.02));
    let mut waveform = Waveform::new(2.0, 4.0);
    assert!(waveform.drag(4.0, 12.0).finished);
    assert_eq!(waveform.slice.end, DURATION);
}

#[test]
fn dragging_inside_moves_the_slice_without_changing_length() {
    let mut waveform = Waveform::new(2.0, 4.0);
    assert!(waveform.drag(3.0, 9.5).finished);
    assert_eq!(waveform.slice, Slice { start: nanos(8.0), end: nanos(10.0) });
}

#[test]
fn wheel_zooms_at_pointer_without_cropping_or_scrolling_parent() {
    let mut waveform = Waveform::new(2.0, 4.0);
    let hover = point(7.5);
    waveform.frame(SliceInput { hover: Some(hover), zoom: 800, ..still() });
    let view = waveform.view;
    assert!(view.span < DURATION);
    let time = view.offset as f64 + f64::from(hover) / f64::from(WIDTH) * view.span as f64;
    assert!((time - nanos(7.5) as f64).abs() < nanos(0.02) as f64);
    assert_eq!(waveform.slice, Slice { start: nanos(2.0), end: nanos(4.0) });
}

#[test]
fn shift_wheel_pans_without_zooming_or_cropping() {
    let mut waveform = Waveform::new(2.0, 4.0);
    waveform.view = SliceView { offset: nanos(2.0), span: nanos(4.0), drag: None };
    waveform.frame(SliceInput {
        hover: Some(point(5.0)),
        pan: -80_000,
        shift: true,
        ..still()
    });
    assert!(waveform.view.offset > nanos(2.0));
    assert_eq!(waveform.view.span, nanos(4.0));
    assert_eq!(waveform.slice, Slice { start: nanos(2.0), end: nanos(4.0) });
}

#[test]
fn ruler_click_requests_audition_without_changing_crop() {
    let mut waveform = Waveform::new(2.0, 4.0);
    assert!(waveform.frame(still()).seek.is_none());
    let response = waveform.frame(SliceInput { ruler: Some(point(6.0)), ..still() });
    assert!((response.seek.unwrap() - nanos(6.0)).abs() < nanos(0.02));
    assert!(!response.changed && !response.finished);
    assert_eq!(waveform.slice, Slice { start: nanos(2.0), end: nanos(4.0) });
    assert!(waveform.frame(still()).seek.is_none());
}

#[test]
fn buttons_show_everything_or_the_slice() {
    let mut waveform = Waveform::new(2.0, 4.0);
    waveform.frame(SliceInput { button: Some(ZoomButton::Slice), ..still() });
    assert!(waveform.view.span < DURATION);
    assert!(waveform.view.offset <= nanos(2.0));
    waveform.frame(SliceInput { button: Some(ZoomButton::Fit), ..still() });
    assert_eq!(waveform.view.span, DURATION);
    assert_eq!(waveform.view.offset, 0);
}

#[test]
fn edges_are_taken_hold_of_nearby() {
    let waveform = Waveform::new(2.0, 4.0);
    let source = SliceSource { duration: DURATION, min_length: nanos(0.01) };
    let hold = |place, shift| waveform.view.hold(&waveform.slice, place, WIDTH, shift, &source);
    assert_eq!(hold(point(2.05), false), DragKind::Start);
    assert_eq!(hold(point(3.95), false), DragKind::End);
    assert_eq!(hold(point(3.0), false), DragKind::Move);
    assert_eq!(hold(point(3.0), true), DragKind::Select);
    assert_eq!(hold(point(8.0), false), DragKind::Select);
}

#[test]
fn a_drag_goes_on_when_the_recording_is_another() {
    let mut waveform = Waveform::new(2.0, 4.0);
    let stale = |kind| Drag { kind, anchor: 50 * SECOND, start: 40 * SECOND, end: 60 * SECOND };
    waveform.view.drag = Some(stale(DragKind::Start));
    waveform.frame(SliceInput { pointer: Some(point(1.0)), ..still() });
    assert_eq!(waveform.slice, Slice { start: nanos(1.0), end: nanos(4.0) });
    waveform.view.drag = Some(stale(DragKind::End));
    waveform.frame(SliceInput { pointer: Some(point(6.0)), ..still() });
    assert_eq!(waveform.slice, Slice { start: nanos(1.0), end: nanos(6.0) });
    waveform.view.drag = Some(stale(DragKind::Select));
    waveform.frame(SliceInput { pointer: Some(point(3.0)), ..still() });
    assert_eq!(waveform.slice, Slice { start: nanos(3.0), end: DURATION });
}

#[test]
fn recordings_of_any_length_are_sliced() {
    assert_eq!(source_duration(u64::MAX, 1, 7), i64::MAX);
    let source = SliceSource { duration: i64::MAX, min_length: SECOND };
    let mut view = SliceView::new();
    let mut slice = Slice { start: 0, end: i64::MAX };
    let input = SliceInput { hover: Some(0), zoom: 500, ..still() };
    view.slice_waveform(&mut slice, &source, &input);
    assert_eq!(view, SliceView { offset: 0, span: i64::MAX / 2, drag: None });
    assert_eq!(slice, Slice { start: 0, end: i64::MAX });
}

#[test]
fn a_track_without_a_sampler_opens_no_editor() {
    assert!(SamplerEditor::open(TRACK, false, &vec![zone(1)]).is_none());
    let empty = SamplerEditor::open(TRACK, true, &Vec::new()).unwrap();
    assert!(empty.draft.is_none());
    assert!(!empty.offers_layers(0));
    assert!(empty.offers_layers(1));
}

#[test]
fn a_source_measures_itself_by_its_frames() {
    assert_eq!(source_duration(96_000, 48_000, 7), 2 * SECOND);
    assert_eq!(source_duration(0, 48_000, 7), 7);
    assert_eq!(source_duration(0, 48_000, -7), 0);
    assert_eq!(shortest_slice(10, DURATION), nanos(0.1));
}

#[test]
fn zones_keep_their_limits_in_order() {
    let mut edited = zone(1);
    edited.edit(ZoneEdit::LowNote(90), DURATION);
    edited.edit(ZoneEdit::HighNote(40), DURATION);
    assert!(edited.low_note <= edited.high_note);
    edited.edit(ZoneEdit::Gain(999_000), DURATION);
    assert_eq!(edited.gain, 24_000);
    edited.edit(ZoneEdit::Choke(true), DURATION);
    assert_eq!(edited.choke_group, Some(1));
    edited.edit(ZoneEdit::Choke(false), DURATION);
    assert_eq!(edited.choke_group, None);
}

#[test]
fn a_slice_is_listened_to_until_it_ends() {
    let slice = zone_slice(&zone(1), DURATION);
    assert_eq!(slice, Slice { start: 0, end: SECOND });
    assert_eq!(listen_from(SECOND / 2, &slice, DURATION, 1), (SECOND / 2, SECOND));
    assert_eq!(listen_from(2 * SECOND, &slice, DURATION, 1), (2 * SECOND, DURATION));
}

#[test]
fn a_preview_waits_until_it_is_read() {
    let zones = vec![zone(1)];
    let mut editor = SamplerEditor::open(TRACK, true, &zones).unwrap();
    assert!(editor.preview_sampler_slice("kick.wav", &None));
    let loading = Some(PreviewState { loading: true, playing: false, position: 0, error: None });
    assert!(!editor.play_slice(&loading, 1, 5));
    assert_eq!(editor.preview_pending, Some((1, 5)));
    assert_eq!(editor.start_pending(&loading), None);
    let ready = Some(PreviewState { loading: false, playing: false, position: 0, error: None });
    assert_eq!(editor.start_pending(&ready), Some((1, 5)));
    assert!(!editor.preview_sampler_slice("kick.wav", &ready));
    assert!(editor.play_slice(&ready, 2, 6));
    let failed = Some(PreviewState {
        loading: false,
        playing: false,
        position: 0,
        error: Some("bad".to_string()),
    });
    assert!(!editor.play_slice(&failed, 2, 6));
    assert_eq!(editor.error.as_deref(), Some("bad"));
    assert!(editor.end_sampler_preview());
}

#[test]
fn settings_that_a_track_leaves_out_have_defaults() {
    let zones = vec![zone(1)];
    let mut selected = 0;
    let louder = SettingsEdit::OutputGain(3_000);
    match sampler_editor(&mut selected, &zones, &settings(), ZoneListEvent::Settings(louder)) {
        ZoneListAction::UpdateSettings(settings) => assert_eq!(
            settings,
            SamplerSettings {
                polyphony: 1,
                voice_stealing: VoiceStealing::Oldest,
                output_gain: 3_000,
            }
        ),
        action => panic!("unexpected action: {action:?}"),
    }
    let mut editor = SamplerEditor::open(TRACK, true, &zones).unwrap();
    let quietest = SettingsEdit::VoiceStealing(VoiceStealing::Quietest);
    let event = SampleEvent::Settings(quietest);
    match editor.sampler_sample_controls(&zones, &settings(), event, &source()) {
        SampleAction::UpdateSettings(settings) => assert_eq!(
            settings,
            SamplerSettings {
                polyphony: 32,
                voice_stealing: VoiceStealing::Quietest,
                output_gain: 0,
            }
        ),
        action => panic!("unexpected action: {action:?}"),
    }
    let own = TrackSettings {
        polyphony: Some(4),
        voice_stealing: Some(VoiceStealing::LowestVelocity),
        output_gain: Some(-6_000),
    };
    match sampler_editor(&mut selected, &zones, &own, ZoneListEvent::Settings(louder)) {
        ZoneListAction::UpdateSettings(settings) => {
            assert_eq!(settings.polyphony, 4);
            assert_eq!(settings.voice_stealing, VoiceStealing::LowestVelocity);
        }
        action => panic!("unexpected action: {action:?}"),
    }
}

#[test]
fn another_layer_ends_what_is_heard() {
    let zones = vec![zone(1), zone(2)];
    let mut editor = SamplerEditor::open(TRACK, true, &zones).unwrap();
    editor.preview_pending = Some((1, 5));
    assert!(!editor.choose_layer(&zones, Some(1)));
    assert_eq!(editor.preview_pending, Some((1, 5)));
    assert!(editor.choose_layer(&zones, Some(2)));
    assert_eq!(editor.zone_id, Some(2));
    assert!(same(&editor.draft, &zones[1]));
    assert!(editor.preview_pending.is_none());
    editor.preview_pending = Some((1, 5));
    editor.layer_removed(&zones);
    assert_eq!(editor.zone_id, Some(1));
    assert!(editor.preview_pending.is_none());
    editor.preview_pending = Some((1, 5));
    editor.stop_sampler_preview();
    assert!(editor.preview_pending.is_none());
    editor.layer_removed(&Vec::new());
    assert!(editor.draft.is_none() && editor.zone_id.is_none());
}

#[test]
fn only_the_layer_in_the_window_is_drafted() {
    let zones = vec![zone(1), zone(2)];
    let mut editor = SamplerEditor::open(TRACK, true, &zones).unwrap();
    let mut louder = zone(1);
    louder.gain = 3_000;
    assert_eq!(editor.keep_draft(louder.copy(), false, &zones), None);
    assert!(same(&editor.draft, &louder));
    assert_eq!(editor.keep_draft(louder.copy(), true, &zones), Some(0));
    assert_eq!(editor.keep_draft(zone(2), true, &zones), None);
    assert!(same(&editor.draft, &louder));
    assert_eq!(editor.keep_draft(louder.copy(), true, &vec![zone(2)]), None);
}

#[test]
fn the_play_button_follows_its_own_file() {
    let mut editor = SamplerEditor::open(TRACK, true, &vec![zone(1)]).unwrap();
    editor.preview_sampler_slice("kick.wav", &None);
    let status = Some(PreviewState { loading: false, playing: true, position: 7, error: None });
    let path = Some("kick.wav".to_string());
    assert_eq!(
        editor.playback(&path, &status, true, 3),
        Playback { available: true, active: true, loading: false, position: 7, heard: true }
    );
    let other = Some("snare.wav".to_string());
    assert_eq!(
        editor.playback(&other, &status, false, 3),
        Playback { available: false, active: false, loading: false, position: 3, heard: false }
    );
}

#[test]
fn the_zone_list_selects_adds_and_deletes() {
    let zones = vec![zone(1), zone(2)];
    let mut selected = 0;
    let mut run = |event| sampler_editor(&mut selected, &zones, &settings(), event);
    assert!(matches!(run(ZoneListEvent::SelectZone(1)), ZoneListAction::Nothing));
    assert!(matches!(run(ZoneListEvent::DeleteZone), ZoneListAction::RemoveZone(1)));
    assert!(matches!(run(ZoneListEvent::AddZone), ZoneListAction::AddZone));
    match run(ZoneListEvent::Settings(SettingsEdit::Polyphony(5_000))) {
        ZoneListAction::UpdateSettings(settings) => assert_eq!(settings.polyphony, 1_024),
        action => panic!("unexpected action: {action:?}"),
    }
    assert_eq!(find_zone(&zones, 2), 1);
    assert_eq!(zones_title(2), "2 zones · canonical instrument state");
}

#[test]
fn the_picker_searches_without_regard_to_case() {
    let names = vec!["Kick.WAV".to_string(), "Snare.wav".to_string()];
    assert_eq!(sampler_asset_picker(&names, "KICK"), vec![0]);
    assert_eq!(sampler_asset_picker(&names, ""), vec![0, 1]);
    assert_eq!(empty_picker(true), "Import audio to get started.");
    assert_eq!(empty_picker(false), "No matches");
}
