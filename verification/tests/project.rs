use gaw_app::instrument::{
    InstrumentKey, KeyboardInstrument, KeyboardProject, KeyboardTrack,
};
use gaw_app::isolate::{
    changed_ids, export_pages, cut_clip_project, included_compositions, isolated_clip_project, ClipNode,
    ClipTarget, CompositionNode, ExportError, IsolationError, LaneNode, LaneTarget, ProjectGraph, TrackNode,
};
use gaw_app::pages::AUDIO_PAGE_FRAMES;
use gaw_app::queue::{CommandQueue, RealtimeCommand};

const PIANO: u128 = 7;

fn track(id: u128, plays_notes: bool) -> KeyboardTrack {
    KeyboardTrack {
        id,
        composition_id: 1,
        plays_notes,
        instrument: if plays_notes { Some(3) } else { None },
        volume_bits: 0.0f32.to_bits(),
        muted: false,
        solo: false,
        clips: 0,
    }
}

fn project() -> KeyboardProject {
    KeyboardProject {
        tracks: vec![track(PIANO, true)],
        assets: 5,
        event_data: 0,
        tempo_bits: 120.0f64.to_bits(),
        random_seed: 0,
    }
}

#[test]
fn recording_notes_does_not_rebuild_the_live_instrument() {
    let mut project = project();
    let before = InstrumentKey::from_project(&project, PIANO, 48_000);
    project.tracks[0].clips = 1;
    project.event_data = 1;
    assert_eq!(before, InstrumentKey::from_project(&project, PIANO, 48_000));
    project.tracks[0].volume_bits = (-6.0f32).to_bits();
    assert_ne!(before, InstrumentKey::from_project(&project, PIANO, 48_000));
}

#[test]
fn other_track_solo_and_output_rate_invalidate_live_instrument() {
    let mut project = project();
    let before = InstrumentKey::from_project(&project, PIANO, 48_000);
    assert_ne!(before, InstrumentKey::from_project(&project, PIANO, 44_100));
    let mut other = track(8, false);
    other.solo = true;
    project.tracks.push(other);
    assert_ne!(before, InstrumentKey::from_project(&project, PIANO, 48_000));
    project.tracks[1].muted = true;
    assert_eq!(before, InstrumentKey::from_project(&project, PIANO, 48_000));
}

#[test]
fn an_instrument_is_played_once_it_is_prepared() {
    let project = project();
    let mut queue = CommandQueue::new();
    let mut keyboard = KeyboardInstrument::new();
    keyboard.select_track(Some(PIANO));
    let request = keyboard.refresh(&project, 1, Some(48_000), &mut queue).unwrap();
    assert_eq!(request.track_id, PIANO);
    assert!(keyboard.status.loading);
    assert!(!keyboard.note_on_tuned(&mut queue, true, 60, 100, 0));
    keyboard.prepared(request.generation, Ok(()), &mut queue);
    assert!(keyboard.status.ready);
    assert!(keyboard.note_on_tuned(&mut queue, true, 60, 100, 0));
    keyboard.note_off(&mut queue, true, 60);
    keyboard.all_notes_off(&mut queue, true);
    assert_eq!(queue.line.back(), Some(&RealtimeCommand::LiveAllNotesOff));
}

#[test]
fn an_instrument_that_came_too_late_is_void() {
    let project = project();
    let mut queue = CommandQueue::new();
    let mut keyboard = KeyboardInstrument::new();
    keyboard.select_track(Some(PIANO));
    let request = keyboard.refresh(&project, 1, Some(48_000), &mut queue).unwrap();
    keyboard.invalidate();
    keyboard.prepared(request.generation, Ok(()), &mut queue);
    assert!(!keyboard.status.ready);
    let again = keyboard.refresh(&project, 1, Some(48_000), &mut queue).unwrap();
    keyboard.prepared(again.generation, Err("missing sample".to_string()), &mut queue);
    assert!(!keyboard.status.ready);
    assert_eq!(keyboard.status.error.as_deref(), Some("missing sample"));
}

fn clip(id: u128, nested: Option<u128>) -> ClipNode {
    ClipNode { id, nested, start: 960_000, duration: 3 * 960_000, muted: true, settings: 50 }
}

fn audio_track(id: u128, composition_id: u128, clips: Vec<ClipNode>) -> TrackNode {
    TrackNode {
        id,
        composition_id,
        clips,
        muted: true,
        solo: true,
        volume_bits: (-6.0f32).to_bits(),
        effects: 60,
        instrument: Some(61),
        settings: 62,
    }
}

fn composition(id: u128, track_ids: Vec<u128>) -> CompositionNode {
    CompositionNode {
        id,
        length: 64 * 960_000,
        track_ids,
        track_groups: vec![80],
        output_effects: 81,
        settings: 82,
    }
}

fn lane(composition_id: u128, target: LaneTarget) -> LaneNode {
    LaneNode { composition_id, target, points: 90 }
}

fn graph() -> ProjectGraph {
    ProjectGraph {
        root_composition_id: 3,
        assets: vec![100],
        compositions: vec![
            composition(1, vec![10, 11]),
            composition(2, vec![20]),
            composition(3, Vec::new()),
        ],
        tracks: vec![
            audio_track(10, 1, vec![clip(1_000, None), clip(1_001, Some(2))]),
            audio_track(11, 1, Vec::new()),
            audio_track(20, 2, Vec::new()),
        ],
        automation: vec![
            lane(1, LaneTarget::Track { track_id: 11 }),
            lane(1, LaneTarget::Track { track_id: 10 }),
            lane(1, LaneTarget::CompositionOutput),
            lane(3, LaneTarget::CompositionOutput),
            lane(1, LaneTarget::ClipProcessor { track_id: 10, clip_id: 1_001 }),
        ],
        settings: 70,
    }
}

fn target(clip_id: u128) -> ClipTarget {
    ClipTarget { composition_id: 1, track_id: 10, clip_id }
}

fn isolate(graph: &ProjectGraph, target: ClipTarget) -> Result<ProjectGraph, IsolationError> {
    isolated_clip_project(cut_clip_project(graph, target), true)
}

#[test]
fn isolated_project_keeps_only_the_target_root_track_and_clip() {
    let graph = graph();
    let original_track = &graph.tracks[0];
    let expected_clip = ClipNode { muted: false, ..original_track.clips[0] };
    let expected_end = expected_clip.start + expected_clip.duration;
    let isolated = isolate(&graph, target(1_000)).unwrap();
    assert_eq!(isolated.root_composition_id, 1);
    assert_eq!(isolated.settings, graph.settings);
    assert_eq!(isolated.assets, graph.assets);
    assert_eq!(isolated.compositions.len(), 1);
    let root = &isolated.compositions[0];
    assert_eq!(root.id, 1);
    assert_eq!(root.track_ids, vec![10]);
    assert!(root.track_groups.is_empty());
    assert_eq!(root.length, expected_end);
    assert_eq!(root.output_effects, graph.compositions[0].output_effects);
    assert_eq!(root.settings, graph.compositions[0].settings);
    assert_eq!(isolated.tracks.len(), 1);
    let track = &isolated.tracks[0];
    assert_eq!(track.id, 10);
    assert_eq!(track.clips.len(), 1);
    assert_eq!(track.clips[0], expected_clip);
    assert!(!track.muted);
    assert!(!track.solo);
    assert_eq!(track.volume_bits, original_track.volume_bits);
    assert_eq!(track.effects, original_track.effects);
    assert_eq!(track.instrument, original_track.instrument);
    assert_eq!(isolated.automation, vec![graph.automation[1], graph.automation[2]]);
}

#[test]
fn nested_compositions_come_along() {
    let graph = graph();
    let isolated = isolate(&graph, target(1_001)).unwrap();
    let ids: Vec<u128> = isolated.compositions.iter().map(|node| node.id).collect();
    assert_eq!(ids, vec![2, 1]);
    assert_eq!(isolated.compositions[0].length, graph.compositions[1].length);
    assert_eq!(isolated.compositions[0].track_groups, graph.compositions[1].track_groups);
    let ids: Vec<u128> = isolated.tracks.iter().map(|node| node.id).collect();
    assert_eq!(ids, vec![20, 10]);
    assert!(isolated.tracks[0].muted && isolated.tracks[0].solo);
    let lanes = vec![graph.automation[1], graph.automation[2], graph.automation[4]];
    assert_eq!(isolated.automation, lanes);
    let included = included_compositions(&graph, 1, Some(2)).unwrap();
    assert!(included.contains(&1) && included.contains(&2));
}

#[test]
fn what_is_missing_is_named() {
    let mut graph = graph();
    let error = |graph: &ProjectGraph, target| isolate(graph, target).unwrap_err();
    let composition = ClipTarget { composition_id: 9, ..target(1_000) };
    assert_eq!(error(&graph, composition), IsolationError::CompositionMissing);
    let track = ClipTarget { track_id: 99, ..target(1_000) };
    assert_eq!(error(&graph, track), IsolationError::TrackMissing);
    assert_eq!(error(&graph, target(9_999)), IsolationError::ClipMissing);
    graph.tracks[0].clips[0].start = i64::MAX;
    assert_eq!(error(&graph, target(1_000)), IsolationError::EndInvalid);
    graph.tracks.remove(2);
    assert_eq!(error(&graph, target(1_001)), IsolationError::NestedTrackMissing);
    graph.compositions.remove(1);
    assert_eq!(error(&graph, target(1_001)), IsolationError::NestedCompositionMissing);
    assert_eq!(IsolationError::EndInvalid.message(), "clip end is invalid");
    assert!(!changed_ids(&graph).is_empty());
}

#[test]
fn an_isolated_project_must_be_valid() {
    let graph = graph();
    let cut = cut_clip_project(&graph, target(1_000));
    let error = isolated_clip_project(cut, false).unwrap_err();
    assert_eq!(error, IsolationError::ProjectInvalid);
    assert_eq!(error.message(), "isolated clip project is invalid");
    let cut = cut_clip_project(&graph, target(9_999));
    assert_eq!(isolated_clip_project(cut, false).unwrap_err(), IsolationError::ClipMissing);
}

#[test]
fn the_nearest_missing_part_is_named_first() {
    let mut graph = graph();
    // The clip plays 2, which plays 5 and then 6. The first lacks a track, the second is gone.
    graph.tracks[2].clips = vec![clip(2_000, Some(5)), clip(2_001, Some(6))];
    graph.compositions.push(composition(5, vec![99]));
    let error = isolate(&graph, target(1_001)).unwrap_err();
    assert_eq!(error, IsolationError::NestedTrackMissing);
    graph.tracks[2].clips.reverse();
    let error = isolate(&graph, target(1_001)).unwrap_err();
    assert_eq!(error, IsolationError::NestedCompositionMissing);
}

#[test]
fn an_export_is_cut_into_pages() {
    let page = AUDIO_PAGE_FRAMES;
    let pages = export_pages(10, page, 5).unwrap();
    let total: u64 = pages.iter().map(|request| request.frames).sum();
    assert_eq!(total, page + 5 - 10);
    assert_eq!(pages[0].start_frame, 10);
    assert_eq!(export_pages(0, 0, 0).unwrap_err(), ExportError::RangeEmpty);
    assert_eq!(export_pages(0, u64::MAX, 1).unwrap_err(), ExportError::RangeOverflow);
}
