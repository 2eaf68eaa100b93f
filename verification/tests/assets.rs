use gaw_app::asset_dialog::{
    extension_label, preview_button, preview_line, AssetDesk, AssetDialog, AssetInfo, AssetRequest, DialogCommand, DialogInput, STEMS,
};
use gaw_app::asset_preview::AssetPreviewStatus;
use gaw_app::assets::{
    asset_browser_rows, asset_context_menu, audio_asset_row, channel_label,
    midi_asset_context_menu, midi_asset_row, source_count, toggle_folder, AssetBrowserRow, AssetFolder, AssetMenuAction,
};
use gaw_app::intents::Intent;
use gaw_app::names::{new_name, split_name};
use gaw_app::tempo::{
    candidate_label, candidate_text, move_boundary, stable_text, tempo_map_editor, tempo_sections_editor,
    tempo_unreliable_message, time_at, BpmDetection, BpmDetectionState, DetectionNews,
    MapGesture, SectionEdit, Tempo, TempoAnalysis, TempoSection, TempoSectionDraft, TempoSync,
    TempoUnreliable, TempoUnreliableReason, SHORTEST_SECTION,
};
use std::collections::{HashMap, HashSet};

const SECOND: u64 = 1_000_000_000;

/// Rows found the slow way: every folder looks through every asset.
fn slow_rows(
    audio: &[(usize, u128)],
    midi: &[(usize, u128)],
    folders: &[AssetFolder],
    collapsed: &HashSet<u128>,
) -> Vec<AssetBrowserRow> {
    let audio_folders: HashMap<u128, u128> = folders
        .iter()
        .flat_map(|folder| folder.asset_ids.iter().map(move |id| (*id, folder.id)))
        .collect();
    let midi_folders: HashMap<u128, u128> = folders
        .iter()
        .flat_map(|folder| folder.event_data_ids.iter().map(move |id| (*id, folder.id)))
        .collect();
    let mut rows = Vec::new();
    rows.extend(
        audio
            .iter()
            .filter(|(_, id)| !audio_folders.contains_key(id))
            .map(|(index, _)| AssetBrowserRow::Audio(*index)),
    );
    rows.extend(
        midi.iter()
            .filter(|(_, id)| !midi_folders.contains_key(id))
            .map(|(index, _)| AssetBrowserRow::Midi(*index)),
    );
    for (index, folder) in folders.iter().enumerate() {
        let is_collapsed = collapsed.contains(&folder.id);
        rows.push(AssetBrowserRow::Folder { index, collapsed: is_collapsed });
        if is_collapsed {
            continue;
        }
        rows.extend(
            audio
                .iter()
                .filter(|(_, id)| audio_folders.get(id) == Some(&folder.id))
                .map(|(index, _)| AssetBrowserRow::Audio(*index)),
        );
        rows.extend(
            midi.iter()
                .filter(|(_, id)| midi_folders.get(id) == Some(&folder.id))
                .map(|(index, _)| AssetBrowserRow::Midi(*index)),
        );
    }
    rows
}

struct Fixture {
    audio: Vec<(usize, u128)>,
    midi: Vec<(usize, u128)>,
    folders: Vec<AssetFolder>,
}

fn fixture(asset_count: usize, folder_count: usize) -> Fixture {
    let audio: Vec<_> =
        (0..asset_count).map(|index| (index * 2, 1_000 + index as u128)).collect();
    let midi: Vec<_> =
        (0..asset_count / 4).map(|index| (index * 3, 2_000 + index as u128)).collect();
    let mut folders: Vec<_> = (0..folder_count)
        .map(|index| AssetFolder {
            id: 3_000 + index as u128,
            asset_ids: Vec::new(),
            event_data_ids: Vec::new(),
        })
        .collect();
    if folder_count > 0 {
        for (offset, (_, id)) in audio.iter().enumerate().filter(|(offset, _)| offset % 7 != 0) {
            folders[offset % folder_count].asset_ids.push(*id);
        }
        for (offset, (_, id)) in midi.iter().enumerate().filter(|(offset, _)| offset % 3 != 0) {
            folders[offset % folder_count].event_data_ids.push(*id);
        }
    }
    Fixture { audio, midi, folders }
}

#[test]
fn asset_browser_grouping_preserves_all_rows_and_folder_membership() {
    for duplicates in [false, true] {
        let Fixture { mut audio, mut midi, mut folders } = fixture(24, 4);
        if duplicates {
            audio.push(audio[1]);
            midi.push(midi[1]);
            folders[0].asset_ids.extend([audio[2].1, audio[2].1]);
            folders[3].asset_ids.push(audio[2].1);
            folders[0].event_data_ids.push(midi[2].1);
            folders[3].event_data_ids.push(midi[2].1);
            folders[1].id = folders[0].id;
        }
        folders[0].asset_ids.push(9_001);
        folders[0].event_data_ids.push(9_002);
        for mask in 0..16 {
            let collapsed: HashSet<u128> = folders
                .iter()
                .enumerate()
                .filter(|(index, _)| mask & (1 << index) != 0)
                .map(|(_, folder)| folder.id)
                .collect();
            let rows = asset_browser_rows(&audio, &midi, &folders, &collapsed);
            assert_eq!(rows, slow_rows(&audio, &midi, &folders, &collapsed));
            let foldered_audio: HashSet<u128> =
                folders.iter().flat_map(|folder| folder.asset_ids.iter().copied()).collect();
            let foldered_midi: HashSet<u128> =
                folders.iter().flat_map(|folder| folder.event_data_ids.iter().copied()).collect();
            for row in rows {
                match row {
                    AssetBrowserRow::Folder { .. } => {}
                    AssetBrowserRow::Audio(index) => {
                        let id = audio.iter().find(|(i, _)| *i == index).unwrap().1;
                        assert_eq!(
                            foldered_audio.contains(&id),
                            folders.iter().any(|folder| folder.asset_ids.contains(&id))
                        );
                    }
                    AssetBrowserRow::Midi(index) => {
                        let id = midi.iter().find(|(i, _)| *i == index).unwrap().1;
                        assert_eq!(
                            foldered_midi.contains(&id),
                            folders.iter().any(|folder| folder.event_data_ids.contains(&id))
                        );
                    }
                }
            }
        }
    }
    for (assets, folders) in [(0, 0), (0, 3), (8, 0)] {
        let Fixture { audio, midi, folders } = fixture(assets, folders);
        assert_eq!(
            asset_browser_rows(&audio, &midi, &folders, &HashSet::new()),
            slow_rows(&audio, &midi, &folders, &HashSet::new())
        );
    }
}

#[test]
fn a_folder_folds_and_unfolds() {
    let mut collapsed = HashSet::new();
    toggle_folder(&mut collapsed, 5);
    assert!(collapsed.contains(&5));
    toggle_folder(&mut collapsed, 5);
    assert!(!collapsed.contains(&5));
}

#[test]
fn menus_offer_what_can_be_done() {
    let menu = asset_context_menu(Some(3), true, false, false);
    assert!(menu.iter().any(|entry| entry.action == AssetMenuAction::Rename(3)));
    assert!(menu.iter().any(|entry| entry.action == AssetMenuAction::Delete(3)));
    let busy = asset_context_menu(Some(3), true, true, true);
    let convert = busy
        .iter()
        .find(|entry| entry.action == AssetMenuAction::ConvertToMidi(3))
        .unwrap();
    assert!(!convert.enabled);
    let empty = asset_context_menu(None, true, false, false);
    assert!(empty.iter().all(|entry| entry.action == AssetMenuAction::Import));
    assert_eq!(midi_asset_context_menu(2).action, AssetMenuAction::AddMidiToTimeline(2));
}

#[test]
fn sources_are_counted_and_channels_named() {
    assert_eq!(channel_label(1), "MONO");
    assert_eq!(channel_label(2), "STEREO");
    assert!(source_count(2, 1).contains('3') || source_count(2, 1).contains('2'));
}

#[test]
fn names_keep_their_extension() {
    let parts = split_name("kick.wav");
    assert_eq!((parts.stem.as_str(), parts.extension.as_str()), ("kick", "wav"));
    assert_eq!(new_name("  snare ", &parts.extension), "snare.wav");
    assert_eq!(new_name("snare.wav", &parts.extension), "snare.wav");
    let bare = split_name("kick");
    assert_eq!((bare.stem.as_str(), bare.extension.as_str()), ("kick", ""));
}

fn asset(id: u128, tempo: Option<u32>) -> AssetInfo {
    AssetInfo {
        id,
        name: "loop.wav".to_string(),
        media_path: Some("media/loop.wav".to_string()),
        content_hash: None,
        tempo,
        first_beat: None,
        sample_rate: 48_000,
        frames: 480_000,
        duration: 10 * SECOND,
    }
}

fn idle() -> DialogInput {
    DialogInput { enter: false, primary: false, cancel: false, detect: false, typed: None }
}

#[test]
fn a_drop_asks_only_about_a_tempo_that_differs() {
    let assets = vec![asset(1, Some(120_000)), asset(2, Some(90_000)), asset(3, None)];
    let mut desk = AssetDesk::new();
    let intent = desk.request_asset_drop(&assets, 1, 5, Some(0), 120_000).unwrap();
    assert_eq!(
        intent,
        Intent::AddAssetClip {
            asset_id: 1,
            beat: 5,
            track: Some(0),
            tempo_sync: Some(TempoSync::Stretch),
        }
    );
    assert!(desk.request_asset_drop(&assets, 2, 5, None, 120_000).is_none());
    assert_eq!(desk.pending_drop.as_ref().unwrap().asset_tempo, 90_000);
    let chosen = desk.asset_drop_dialog(Some(TempoSync::Repitch), false).unwrap();
    assert_eq!(
        chosen,
        Intent::AddAssetClip {
            asset_id: 2,
            beat: 5,
            track: None,
            tempo_sync: Some(TempoSync::Repitch),
        }
    );
    assert!(desk.pending_drop.is_none());
    desk.request_asset_drop(&assets, 2, 5, None, 120_000);
    assert!(desk.asset_drop_dialog(None, true).is_none());
    assert!(desk.pending_drop.is_none());
}

#[test]
fn a_rename_is_submitted_and_a_cancel_is_not() {
    let assets = vec![asset(1, None)];
    let mut desk = AssetDesk::new();
    let request =
        desk.handle_asset_action(AssetMenuAction::Rename(0), &assets, &Vec::new(), 0, 120_000, true);
    assert!(matches!(request, AssetRequest::Nothing));
    match &mut desk.dialog {
        Some(AssetDialog::Rename { value, extension, .. }) => {
            assert_eq!((value.as_str(), extension.as_str()), ("loop", "wav"));
            *value = "beat".to_string();
        }
        dialog => panic!("unexpected dialog: {dialog:?}"),
    }
    let (command, _) = desk.asset_dialog(DialogInput { primary: true, ..idle() }, &assets, true);
    match command {
        DialogCommand::Rename { index: 0, name } => assert_eq!(name, "beat.wav"),
        command => panic!("unexpected command: {command:?}"),
    }
    assert!(desk.dialog.is_none());
    desk.handle_asset_action(AssetMenuAction::Rename(0), &assets, &Vec::new(), 0, 120_000, true);
    let (command, _) = desk.asset_dialog(DialogInput { cancel: true, ..idle() }, &assets, true);
    assert!(matches!(command, DialogCommand::Nothing));
    assert!(desk.dialog.is_none());
}

#[test]
fn stems_are_split_as_they_are_ticked() {
    let assets = vec![asset(1, None)];
    let mut desk = AssetDesk::new();
    desk.open_stem_splitter(1);
    match &mut desk.dialog {
        Some(AssetDialog::StemSplitter { selected, .. }) => {
            assert_eq!(selected.len(), STEMS);
            for place in selected.iter_mut() {
                *place = false;
            }
            selected[1] = true;
        }
        dialog => panic!("unexpected dialog: {dialog:?}"),
    }
    assert!(!desk.dialog.as_ref().unwrap().offers_dereverb());
    if let Some(AssetDialog::StemSplitter { selected, .. }) = &mut desk.dialog {
        selected[0] = true;
    }
    assert!(desk.dialog.as_ref().unwrap().offers_dereverb());
    if let Some(AssetDialog::StemSplitter { selected, .. }) = &mut desk.dialog {
        selected[0] = false;
    }
    let (command, _) = desk.asset_dialog(DialogInput { primary: true, ..idle() }, &assets, true);
    match command {
        DialogCommand::SplitStems { asset_id, stems, .. } => {
            assert_eq!(asset_id, 1);
            assert_eq!(stems, vec![1]);
        }
        command => panic!("unexpected command: {command:?}"),
    }
}

fn tempo(value: u32) -> Tempo {
    Tempo { value, accepted: true }
}

fn detection() -> BpmDetection {
    BpmDetection {
        bpm: tempo(120_000),
        half: Some(tempo(60_000)),
        double: None,
        confidence: 80,
        runner_up_confidence: 10,
    }
}

fn draft(start: u64, end: u64) -> TempoSectionDraft {
    TempoSectionDraft { start, end, detection: Some(detection()), selected: 0 }
}

#[test]
fn a_detected_tempo_can_be_halved() {
    let mut state = BpmDetectionState::new(10 * SECOND);
    state.poll(DetectionNews::Waiting);
    assert!(state.result.is_none());
    state.poll(DetectionNews::Arrived(Ok(TempoAnalysis::Stable {
        start: 0,
        end: 10 * SECOND,
        detection: detection(),
    })));
    assert_eq!(state.first_tempo(), Some(tempo(120_000)));
    assert_eq!(state.first_tempo(), None);
    assert_eq!(state.choose_candidate(1), Some(tempo(60_000)));
    assert!(!state.has_sections());
    assert_ne!(candidate_label(0), candidate_label(1));
}

#[test]
fn stable_regions_are_counted() {
    let mut state = BpmDetectionState::new(10 * SECOND);
    assert_eq!(state.detected_text(), "0 stable tempo regions detected");
    state.sections = vec![
        draft(0, SECOND),
        TempoSectionDraft { detection: None, ..draft(SECOND, 2 * SECOND) },
    ];
    assert_eq!(state.detected_text(), "1 stable tempo region detected");
}

#[test]
fn a_detector_that_stops_is_reported() {
    let mut state = BpmDetectionState::new(SECOND);
    state.poll(DetectionNews::Stopped);
    assert!(matches!(state.result, Some(Err(_))));
}

#[test]
fn sections_of_a_recording_become_drafts() {
    let mut state = BpmDetectionState::new(10 * SECOND);
    state.accept(Ok(TempoAnalysis::Sections(vec![
        TempoSection { start: 0, end: 4 * SECOND, detection: Some(detection()) },
        TempoSection { start: 4 * SECOND, end: 10 * SECOND, detection: None },
    ])));
    assert!(state.has_sections());
    assert_eq!(state.sections.len(), 2);
    assert_eq!(state.sections[0].bpm(), Some(tempo(120_000)));
    assert_eq!(state.sections[1].bpm(), None);
}

#[test]
fn boundaries_move_between_their_neighbours() {
    let mut sections = vec![draft(0, 4 * SECOND), draft(4 * SECOND, 10 * SECOND)];
    move_boundary(&mut sections, 0, 6 * SECOND);
    assert_eq!((sections[0].end, sections[1].start), (6 * SECOND, 6 * SECOND));
    move_boundary(&mut sections, 0, 60 * SECOND);
    assert_eq!(sections[0].end, 10 * SECOND - SHORTEST_SECTION);
    assert_eq!(sections[1].start, sections[0].end);
}

#[test]
fn the_map_is_clicked_and_sections_are_moved() {
    assert_eq!(time_at(50, 100, 10 * SECOND), 5 * SECOND);
    assert_eq!(time_at(-5, 100, 10 * SECOND), 0);
    assert_eq!(time_at(500, 100, 10 * SECOND), 10 * SECOND);
    let mut sections = vec![draft(0, 4 * SECOND), draft(4 * SECOND, 10 * SECOND)];
    let gesture = MapGesture {
        width: 100,
        boundary: None,
        boundary_active: false,
        playhead: None,
        click: Some(20),
    };
    assert_eq!(tempo_map_editor(&mut sections, gesture), Some(2 * SECOND));
    let heard = tempo_sections_editor(&mut sections, SectionEdit::Audition { index: 1 });
    assert_eq!(heard, Some((4 * SECOND, 10 * SECOND)));
    tempo_sections_editor(&mut sections, SectionEdit::Choose { index: 0, candidate: 1 });
    assert_eq!(sections[0].bpm(), Some(tempo(60_000)));
    tempo_sections_editor(&mut sections, SectionEdit::Split { index: 1, time: 7 * SECOND });
    assert_eq!(sections[1].end, 10 * SECOND);
    tempo_sections_editor(&mut sections, SectionEdit::Split { index: 0, time: 7 * SECOND });
    assert_eq!((sections[0].end, sections[1].start), (7 * SECOND, 7 * SECOND));
}

#[test]
fn unreliable_tempos_are_explained() {
    let unreliable =
        TempoUnreliable { reason: TempoUnreliableReason::WeakPulse, best: Some(detection()) };
    let message = tempo_unreliable_message(unreliable);
    assert!(message.contains("no stable rhythmic pulse was found"));
    assert!(message.ends_with("(80% family confidence; 10% competing)."));
}

#[test]
fn a_detected_tempo_goes_into_the_field_once() {
    let assets = vec![asset(1, None)];
    let mut desk = AssetDesk::new();
    desk.handle_asset_action(AssetMenuAction::SetBpm(0), &assets, &Vec::new(), 0, 120_000, true);
    let (command, _) = desk.asset_dialog(DialogInput { detect: true, ..idle() }, &assets, true);
    assert!(matches!(command, DialogCommand::StartDetection { .. }));
    desk.poll_detection(DetectionNews::Arrived(Ok(TempoAnalysis::Stable {
        start: 0,
        end: 10 * SECOND,
        detection: detection(),
    })));
    desk.show_detected();
    let field = |desk: &AssetDesk| match &desk.dialog {
        Some(AssetDialog::Bpm { value, .. }) => value.clone(),
        dialog => panic!("unexpected dialog: {dialog:?}"),
    };
    assert_eq!(field(&desk), "120.00");
    if let Some(AssetDialog::Bpm { value, .. }) = &mut desk.dialog {
        *value = "98".to_string();
    }
    desk.show_detected();
    assert_eq!(field(&desk), "98");
    desk.choose_candidate(1);
    assert_eq!(field(&desk), "60.00");
    desk.choose_candidate(2);
    assert_eq!(field(&desk), "60.00");
}

#[test]
fn dialogs_say_what_they_know() {
    assert_eq!(extension_label(""), "No extension");
    assert_eq!(extension_label("wav"), "Extension preserved: .wav");
    assert_eq!(preview_line(&None), "PREVIEW UNAVAILABLE");
    let status = |loading, playing, error| {
        Some(AssetPreviewStatus { loading, playing, position: SECOND, duration: 3 * SECOND, error })
    };
    assert_eq!(preview_line(&status(true, false, None)), "LOADING AUDIO…");
    assert_eq!(preview_line(&status(false, false, None)), "0:01.0 / 0:03.0");
    let failed = status(false, false, Some("bad file".to_string()));
    assert_eq!(preview_line(&failed), "PREVIEW ERROR · bad file");
    assert_eq!(preview_button(&status(false, true, None)), ("Ⅱ PAUSE", true));
    assert_eq!(preview_button(&status(true, false, None)), ("▶ PLAY", false));
    assert_eq!(preview_button(&None), ("▶ PLAY", false));
    assert_eq!(stable_text(&detection()), "Stable tempo · 120.0 BPM · 80% confidence");
    assert_eq!(candidate_text(1, 60_000), "Half-time · 60.0 BPM");
}

#[test]
fn rows_describe_their_assets() {
    let row = audio_asset_row(2_345_000_000, 2, None);
    assert_eq!(row.details, "2.35s  ·  STEREO");
    assert_eq!(row.remark, "BPM NOT SET");
    assert_eq!(audio_asset_row(500_000_000, 1, Some(127_600)).remark, "128 BPM");
    let row = midi_asset_row(12, 3 * 960_000 + 480_000);
    assert_eq!(row.details, "12 NOTES  ·  3.50 BEATS");
    assert_eq!(row.remark, "MIDI EVENT ASSET");
    let folder = AssetFolder { id: 1, asset_ids: vec![2, 3], event_data_ids: vec![4] };
    assert_eq!(folder.asset_folder_row(true), ("›", "3".to_string()));
    assert_eq!(folder.asset_folder_row(false).0, "⌄");
}
