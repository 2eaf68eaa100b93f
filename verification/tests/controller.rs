use gaw_app::asset_preview::{time_to_frame, frame_to_time, Arrival, AssetPreview, NANOS};
use gaw_app::backlog::{ChangeSource, ProjectUpdate, PROJECT_BACKLOG};
use gaw_app::clock::{beat_to_frame, frame_to_beat, BEAT_PARTS};
use gaw_app::compile::{
    needs_compile, CompileJob, CompileResult, CompileState, CompileStep, PreparedProject,
    WindowRequest,
};
use gaw_app::controller::{NativeController, ProjectNews, RenderState};
use gaw_app::device::{
    observation_is_current, DeviceNews, DeviceObservation, DeviceState, DeviceTask, DeviceWatch,
    RecoveryAction, DEVICE_RETRY,
};
use gaw_app::media::{confirm_commit, find_asset, import_command, split_commands, AssetCommand};
use gaw_app::pages::{
    missing_pages, page_window, PageRequest, PageWindow, AUDIO_PAGE_BYTES, AUDIO_PAGE_FRAMES,
    AUDIO_PREPARE_LEAD_PAGES, PAGE_CHANNEL_BYTES,
};
use gaw_app::persist::{
    close_outcome, CloseReply, ExternalPoll, ImportedMedia, MediaRegion, ProjectCommand,
    ProjectEvent, ProjectWorkerState, SplitMedia, WorkerTask, PROJECT_EVENTS,
};
use gaw_app::queue::{
    CommandQueue, FlushStep, LoopRange, Metronome, RealtimeCommand, SendOutcome, Snapshot,
    Withdrawal, AUDIO_BACKLOG,
};
use gaw_app::renders::{set_render_state, ShownClip, ShownComposition, ShownTrack};
use gaw_app::startup::{plan_startup, NativeStartup, RecoveryPolicy};
use gaw_app::status::{ControllerError, Notice, StatusLine, Subsystem};
use gaw_app::timeline::{
    completion_is_current, loop_anchor, seek_was_observed, silent_timeline_frames,
    playhead_at, timeline_state_commands, transport_frame, AudioTimeline, CompositionLength,
    MusicalTransport, PendingSeek, ResidentWindow, Transport,
};
use gaw_app::watch::{classify_entry, EntryAction, EntryKind, TreeWalk, WalkError, WATCH_MAX_DEPTH};

const RATE: u32 = 48_000;

type Controller = NativeController<&'static str, u32>;
type Command = ProjectCommand<&'static str, u32>;
type Event = ProjectEvent<&'static str, u32>;

fn metronome() -> Metronome {
    Metronome { enabled: false, tempo_bits: 120.0f64.to_bits(), numerator: 4, denominator: 4 }
}

fn beats(value: f64) -> i64 {
    (value * BEAT_PARTS as f64).round() as i64
}

fn nanos(seconds: f64) -> u64 {
    (seconds * NANOS as f64).round() as u64
}

fn score(playhead: f64, playing: bool) -> MusicalTransport {
    MusicalTransport {
        playing,
        loop_enabled: true,
        loop_start: beats(0.0),
        loop_end: beats(16.0),
        playhead: beats(playhead),
        tempo: 120_000,
    }
}

fn located(score: MusicalTransport) -> Transport {
    score.located(RATE, metronome(), true)
}

fn request(revision: u64, focus_frame: u64, secondary_frame: Option<u64>) -> WindowRequest {
    WindowRequest { revision, focus_frame, secondary_frame }
}

fn snapshot(id: u64) -> Snapshot {
    Snapshot { id, sample_rate: RATE, total_frames: 480_000 }
}

fn controller() -> Controller {
    NativeController::new(located(score(0.0, false)), None)
}

fn update(revision: u64) -> ProjectUpdate<&'static str> {
    ProjectUpdate { revision, source: ChangeSource::Ui, transaction: Some("edit") }
}

#[derive(Clone, Copy, Debug, PartialEq)]
enum Change {
    Name(&'static str),
    Tempo(u32),
    Add(u128),
}

#[derive(Clone, Debug, PartialEq)]
struct Song {
    name: &'static str,
    tempo: u32,
    assets: Vec<u128>,
}

impl Song {
    fn apply(&mut self, change: Change) {
        match change {
            Change::Name(name) => self.name = name,
            Change::Tempo(tempo) => self.tempo = tempo,
            Change::Add(id) => self.assets.push(id),
        }
    }
}

/// A project on disk with its journal, and the worker that owns both.
struct Disk {
    stored: Song,
    journal: Vec<Change>,
    open: Song,
    writes: u64,
    state: ProjectWorkerState,
    imports: u128,
    closed: Option<Result<(), ControllerError>>,
}

impl Disk {
    fn new() -> Self {
        let song = Song { name: "Before", tempo: 120_000, assets: Vec::new() };
        Self {
            stored: song.clone(),
            journal: Vec::new(),
            open: song,
            writes: 0,
            state: ProjectWorkerState::new(Some(0), 0),
            imports: 8,
            closed: None,
        }
    }

    fn write(&mut self) {
        self.stored = self.open.clone();
        self.journal.clear();
        self.writes += 1;
    }

    fn import(&mut self) -> u128 {
        self.imports += 1;
        self.open.apply(Change::Add(self.imports));
        self.write();
        self.imports
    }

    fn perform(&mut self, command: ProjectCommand<Change, Song>) -> Vec<ProjectEvent<Change, Song>> {
        match (self.state.begin(&command), command) {
            (WorkerTask::Refuse(error), _) => vec![ProjectEvent::Error(error)],
            (_, ProjectCommand::Apply { revision, transaction }) => {
                self.journal.push(transaction);
                self.open.apply(transaction);
                vec![self.state.applied(revision, Ok(()))]
            }
            (_, ProjectCommand::ReplaceSnapshot { revision, project }) => {
                self.open = project;
                self.write();
                vec![self.state.replaced(revision, Ok(()), Some(self.writes))]
            }
            (_, ProjectCommand::Save { revision, project }) => {
                self.open = project;
                self.write();
                self.state.saved(revision, Ok(()), Some(self.writes))
            }
            (_, ProjectCommand::ImportMedia { revision, source }) => {
                let before = self.open.assets.clone();
                let asset_id = self.import();
                let command = import_command(&before, &self.stored.assets, asset_id).unwrap();
                assert_eq!(command, AssetCommand::Add(before.len()));
                let media = ImportedMedia {
                    transaction: Change::Add(asset_id),
                    project: self.stored.clone(),
                    asset_id,
                    original_filename: source,
                };
                let event = self.state.imported(revision, Ok(media));
                self.state.delivered(Some(self.writes));
                vec![event]
            }
            (_, ProjectCommand::SplitImportedMedia { revision, regions, .. }) => {
                let asset_ids: Vec<u128> = regions.iter().map(|_| self.import()).collect();
                let commands = split_commands(&self.stored.assets, &asset_ids).unwrap();
                assert_eq!(commands.len(), asset_ids.len());
                let media = SplitMedia {
                    transaction: Change::Add(asset_ids[0]),
                    project: self.stored.clone(),
                    asset_ids,
                };
                let event = self.state.media_split(revision, Ok(media));
                self.state.delivered(Some(self.writes));
                vec![event]
            }
            (_, ProjectCommand::Close) => {
                self.write();
                self.closed = Some(self.state.close_result(Ok(())));
                Vec::new()
            }
            (_, ProjectCommand::Abandon) => Vec::new(),
        }
    }

    /// Folds the journal into the project once edits have ceased.
    fn settle(&mut self) -> Option<ProjectEvent<Change, Song>> {
        if !self.state.checkpoint_due() {
            return None;
        }
        self.write();
        self.state.checkpointed(Ok(true), Some(self.writes))
    }
}

#[test]
fn startup_detects_and_recovers_or_discards_journal() {
    let plan = plan_startup(1, RecoveryPolicy::Recover).unwrap();
    assert!(!plan.clear_recovery);
    let startup = NativeStartup::opened("Recovered", (), plan);
    assert_eq!(startup.recovered, 1);
    assert_eq!(*startup.project(), "Recovered");
    assert_eq!(startup.notice().unwrap().text(), "Recovered 1 journaled edit(s)");

    let plan = plan_startup(1, RecoveryPolicy::Discard).unwrap();
    assert!(plan.clear_recovery);
    let discarded = NativeStartup::opened("Recovered", (), plan);
    assert_eq!(discarded.discarded, 1);
    assert_eq!(*discarded.project(), "Recovered");
}

#[test]
fn a_journal_is_refused_where_nobody_said_what_to_do_with_it() {
    assert!(plan_startup(0, RecoveryPolicy::Abort).is_ok());
    let refusal = plan_startup(3, RecoveryPolicy::Abort).unwrap_err();
    assert!(refusal.starts_with("project has 3 recovery record(s)"));
    assert_eq!(RecoveryPolicy::default(), RecoveryPolicy::Recover);
}

#[test]
fn worker_import_is_canonical_immediate_and_undoable_without_duplicate_persistence() {
    let mut disk = Disk::new();
    let before = disk.stored.clone();
    let command = ProjectCommand::ImportMedia { revision: 1, source: "kick.wav".into() };
    let mut events = disk.perform(command);
    let (transaction, project, asset_id) = match events.remove(0) {
        ProjectEvent::Imported { transaction, project, asset_id, original_filename, .. } => {
            assert_eq!(original_filename, "kick.wav");
            (transaction, project, asset_id)
        }
        event => panic!("unexpected project event: {event:?}"),
    };
    assert!(events.is_empty());
    assert_eq!(disk.stored, project);
    assert!(disk.journal.is_empty());
    let mut shown = before.clone();
    shown.apply(transaction);
    assert_eq!(shown, project);
    assert_eq!(shown.assets, vec![asset_id]);
    assert!(!disk.state.checkpoint_due());
    let writes = disk.writes;
    assert!(disk.settle().is_none());
    assert_eq!(disk.writes, writes);
    assert!(matches!(disk.state.poll(Ok(writes)), ExternalPoll::Unchanged));

    // The import is in the history once, and undoing it is a change of its own.
    let mut controller: NativeController<Change, Song> =
        NativeController::new(located(score(0.0, false)), None);
    let news = ProjectNews::Imported { revision: 1, name: "kick.wav".into(), accepted: Ok(1) };
    controller.handle_project_news(news, &located(score(0.0, false)));
    let mut outbox = Vec::new();
    controller.flush_project(8, &mut outbox);
    assert!(outbox.is_empty());
    let undo = ProjectUpdate { revision: 2, source: ChangeSource::Undo, transaction: None };
    controller.accept_updates(vec![undo], 2, before.clone(), 8, &mut outbox);
    assert_eq!(outbox.len(), 1);
    for command in outbox {
        disk.perform(command);
    }
    assert!(disk.stored.assets.is_empty());
    disk.perform(ProjectCommand::Close);
    assert!(disk.closed.unwrap().is_ok());
}

#[test]
fn worker_splits_tempo_regions_in_one_undoable_transition() {
    let mut disk = Disk::new();
    let imported = disk.import();
    let before = disk.stored.clone();
    let regions = vec![
        MediaRegion { start_frame: 0, end_frame: 32, tempo: 90_000 },
        MediaRegion { start_frame: 32, end_frame: 64, tempo: 128_000 },
    ];
    let command =
        ProjectCommand::SplitImportedMedia { revision: 1, asset_id: imported, regions };
    let mut events = disk.perform(command);
    let (project, asset_ids) = match events.remove(0) {
        ProjectEvent::MediaSplit { project, asset_ids, .. } => (project, asset_ids),
        event => panic!("unexpected project event: {event:?}"),
    };
    assert!(events.is_empty());
    assert_eq!(asset_ids.len(), 2);
    assert_eq!(project.assets.len(), before.assets.len() + 2);
    assert!(project.assets.contains(&imported));
    assert_eq!(disk.stored, project);
    assert!(disk.journal.is_empty());
    let commands = split_commands(&project.assets, &asset_ids).unwrap();
    assert_eq!(commands, vec![AssetCommand::Add(1), AssetCommand::Add(2)]);
    let mut expected = before;
    for command in commands {
        match command {
            AssetCommand::Add(place) => expected.apply(Change::Add(project.assets[place])),
            command => panic!("unexpected command: {command:?}"),
        }
    }
    assert_eq!(expected, project);
    assert_eq!(find_asset(&project.assets, imported), Some(0));
    assert!(confirm_commit(Ok(true), "conflict").is_ok());
    assert_eq!(confirm_commit(Ok(false), "conflict").unwrap_err(), "conflict");
    assert_eq!(confirm_commit(Err("broken".to_string()), "conflict").unwrap_err(), "broken");
    disk.perform(ProjectCommand::Close);
    assert!(disk.closed.unwrap().is_ok());
}

#[test]
fn worker_journals_once_and_clean_close_checkpoints() {
    let mut disk = Disk::new();
    let command = ProjectCommand::Apply { revision: 1, transaction: Change::Tempo(98_000) };
    let events = disk.perform(command);
    assert!(matches!(events[..], [ProjectEvent::Journaled(1)]));
    assert_eq!(disk.journal.len(), 1);
    assert_eq!(disk.stored.tempo, 120_000);
    assert!(disk.state.checkpoint_due());
    disk.perform(ProjectCommand::Close);
    assert!(disk.closed.take().unwrap().is_ok());
    assert!(disk.journal.is_empty());
    assert_eq!(disk.stored.tempo, 98_000);

    let mut idle = Disk::new();
    idle.perform(ProjectCommand::Apply { revision: 1, transaction: Change::Tempo(98_000) });
    assert!(matches!(idle.settle(), Some(ProjectEvent::CanonicalReady(1))));
    assert!(!idle.state.dirty);
    assert!(idle.settle().is_none());
}

#[test]
fn ui_transaction_and_undo_persist_without_duplicate_history() {
    let mut disk = Disk::new();
    let before = disk.stored.clone();
    let mut controller: NativeController<Change, Song> =
        NativeController::new(located(score(0.0, false)), None);
    let faster = Song { tempo: 98_000, ..before.clone() };
    let edit = ProjectUpdate {
        revision: 1,
        source: ChangeSource::Ui,
        transaction: Some(Change::Tempo(98_000)),
    };
    let mut outbox = Vec::new();
    controller.accept_updates(vec![edit], 1, faster, 8, &mut outbox);
    assert_eq!(outbox.len(), 1);
    for command in outbox {
        let events = disk.perform(command);
        assert!(matches!(events[..], [ProjectEvent::Journaled(1)]));
    }
    assert_eq!(disk.journal.len(), 1);

    let undo = ProjectUpdate { revision: 2, source: ChangeSource::Undo, transaction: None };
    let mut outbox = Vec::new();
    controller.accept_updates(vec![undo], 2, before.clone(), 8, &mut outbox);
    assert_eq!(outbox.len(), 1);
    assert!(matches!(outbox[0], ProjectCommand::ReplaceSnapshot { revision: 2, .. }));
    for command in outbox {
        let events = disk.perform(command);
        assert!(matches!(events[..], [ProjectEvent::CanonicalReady(2)]));
    }
    assert!(disk.journal.is_empty());
    assert_eq!(disk.stored.tempo, 120_000);
    assert!(!disk.state.dirty);
}

#[test]
fn abandoned_worker_leaves_recovery_journal() {
    let mut disk = Disk::new();
    disk.perform(ProjectCommand::Apply { revision: 1, transaction: Change::Name("Dirty") });
    let command: ProjectCommand<Change, Song> = ProjectCommand::Abandon;
    assert!(matches!(disk.state.begin(&command), WorkerTask::Stop));
    assert!(disk.perform(command).is_empty());
    assert_eq!(disk.journal, vec![Change::Name("Dirty")]);
    assert_eq!(disk.stored.name, "Before");
    assert!(disk.state.dirty);
    assert!(close_outcome(CloseReply::Abandoned, false).is_ok());
}

#[test]
fn failed_external_edit_preserves_last_valid_project_then_recovers() {
    let mut state = ProjectWorkerState::new(Some(1), 0);
    assert!(matches!(state.poll(Ok(2)), ExternalPoll::Reload));
    let broken: Option<Event> = state.reloaded(Err("broken".to_string()), Some(2));
    assert!(matches!(broken, Some(ProjectEvent::Error(_))));
    assert_eq!(state.baseline, Some(1));
    assert!(matches!(state.poll(Ok(3)), ExternalPoll::Reload));
    let valid: Option<Event> = state.reloaded(Ok(Some(77)), Some(3));
    assert!(matches!(valid, Some(ProjectEvent::External(77))));
    assert!(matches!(state.poll(Ok(3)), ExternalPoll::Unchanged));
}

#[test]
fn external_edits_wait_for_edits_that_are_under_way() {
    let mut state = ProjectWorkerState::new(Some(1), 0);
    let _event: Event = state.applied(4, Ok(()));
    match state.poll(Ok(2)) {
        ExternalPoll::Report(error) => assert_eq!(error.subsystem, Subsystem::Watcher),
        poll => panic!("unexpected poll: {poll:?}"),
    }
    match state.poll(Err("unreadable".to_string())) {
        ExternalPoll::Report(error) => assert_eq!(error.message, "unreadable"),
        poll => panic!("unexpected poll: {poll:?}"),
    }
}

#[test]
fn a_failed_edit_pauses_persistence_until_a_snapshot_is_saved() {
    let mut state = ProjectWorkerState::new(Some(1), 0);
    let failed: Event = state.applied(1, Err("disk full".to_string()));
    assert!(matches!(failed, ProjectEvent::Error(_)));
    let next: Command = ProjectCommand::Apply { revision: 2, transaction: "edit" };
    assert!(matches!(state.begin(&next), WorkerTask::Refuse(_)));
    assert!(state.close_result(Ok(())).is_err());
    let events: Vec<Event> = state.saved(3, Ok(()), Some(9));
    assert!(matches!(events[1], ProjectEvent::Saved(3)));
    assert!(matches!(state.begin(&next), WorkerTask::ApplyTransaction));
    assert!(state.close_result(Ok(())).is_ok());
    assert!(state.close_result(Err("late".to_string())).is_err());
}

#[test]
fn stale_compile_completions_are_rejected_by_revision() {
    let mut state: CompileState<u32, Snapshot> = CompileState::new();
    for revision in 1..=128 {
        state.request(CompileJob {
            request: request(revision, revision * AUDIO_PAGE_FRAMES, None),
            project: 0,
        });
    }
    assert_eq!(state.pending.as_ref().unwrap().request.revision, 128);
    assert!(!completion_is_current(127, 128));
    assert!(completion_is_current(128, 128));
}

#[test]
fn a_render_stops_when_another_is_asked_for() {
    let mut state: CompileState<u32, Snapshot> = CompileState::new();
    assert!(matches!(state.next_step(), CompileStep::Wait));
    state.request(CompileJob { request: request(1, 0, None), project: 5 });
    let active = match state.next_step() {
        CompileStep::Run(job) => job.request,
        step => panic!("unexpected step: {step:?}"),
    };
    assert!(!state.compile_request_is_superseded(active));
    state.request(CompileJob { request: request(2, 0, None), project: 6 });
    assert!(state.compile_request_is_superseded(active));
    state.close();
    assert!(matches!(state.next_step(), CompileStep::Stop));
}

#[test]
fn a_render_is_handed_over_once_unless_another_is_wanted() {
    let mut state: CompileState<u32, Snapshot> = CompileState::new();
    let render = |revision| CompileResult {
        request: request(revision, 0, None),
        window: PageWindow::empty(0),
        result: Ok(snapshot(revision)),
    };
    state.publish(render(1));
    assert_eq!(state.take_completed().unwrap().request.revision, 1);
    assert!(state.take_completed().is_none());
    state.request(CompileJob { request: request(2, 0, None), project: 5 });
    state.publish(render(1));
    assert!(state.take_completed().is_none());
    state.publish(render(2));
    assert_eq!(state.take_completed().unwrap().request.revision, 2);
}

#[test]
fn without_a_callback_nothing_waits() {
    let mut controller = controller();
    controller.enqueue_audio(RealtimeCommand::Play);
    assert_eq!(controller.queue.len(), 1);
    controller.discard_audio();
    assert_eq!(controller.queue.len(), 0);
}

#[test]
fn failed_current_compile_retries_without_clearing_a_newer_focus_request() {
    let mut controller = controller();
    controller.timeline.latest_revision = 7;
    controller.timeline.requested_window = Some(request(7, 456, None));
    let transport = located(score(0.0, false));

    controller.accept_compile_completion(
        CompileResult {
            request: request(7, 123, None),
            window: PageWindow::empty(0),
            result: Err("old request failed".into()),
        },
        &transport,
        None,
        0,
    );
    assert_eq!(controller.timeline.requested_window, Some(request(7, 456, None)));
    assert!(controller.timeline.compile_retry_at.is_none());

    controller.accept_compile_completion(
        CompileResult {
            request: request(7, 456, None),
            window: PageWindow::empty(0),
            result: Err("current request failed".into()),
        },
        &transport,
        None,
        0,
    );
    assert!(controller.timeline.requested_window.is_none());
    let retry_at = controller.timeline.compile_retry_at.unwrap();
    assert!(controller.timeline.schedule_audio_pages(&transport, retry_at - 1).is_none());
    controller.timeline.schedule_audio_pages(&transport, retry_at);
    assert_eq!(controller.timeline.requested_window.map(|value| value.revision), Some(7));
}

#[test]
fn accepted_edit_immediately_invalidates_and_requests_timeline_audio() {
    let mut controller = controller();
    controller.timeline.resident_window = Some(ResidentWindow {
        revision: 0,
        window: PageWindow {
            start_frame: 0,
            end_frame: AUDIO_PAGE_FRAMES,
            secondary_start_frame: 0,
            secondary_end_frame: 0,
            total_frames: AUDIO_PAGE_FRAMES,
        },
    });
    let transport = located(score(0.0, false));

    let mut outbox = Vec::new();
    let outcome = controller.accept_updates(vec![update(1)], 1, 98, 8, &mut outbox);
    assert!(outcome.stale);
    controller.invalidate_and_request_timeline(Ok(snapshot(1)), &transport, None);

    assert_eq!(controller.timeline.latest_revision, 1);
    assert!(controller.timeline.resident_window.is_none());
    assert_eq!(
        controller.timeline.requested_window,
        Some(request(1, transport_frame(&transport), loop_anchor(&transport)))
    );
    assert_eq!(controller.timeline.timeline_clock_revision, Some(1));
    assert!(matches!(controller.queue.front(), Some(RealtimeCommand::InstallSnapshot(_))));
}

#[test]
fn seek_retargets_a_same_revision_compile_request() {
    let last = MusicalTransport { loop_enabled: false, ..score(100.0, false) };
    let current = MusicalTransport { loop_enabled: false, ..score(0.0, false) };
    let mut controller: Controller = NativeController::new(located(last), None);
    controller.timeline.latest_revision = 7;
    controller.timeline.requested_window = Some(request(7, AUDIO_PAGE_FRAMES * 100, None));

    controller.sync_transport(located(current), current.motion_since(&last), None);

    assert_eq!(controller.timeline.requested_window, Some(request(7, 0, None)));
}

#[test]
fn advancing_silent_clock_does_not_starve_a_pending_compile() {
    let mut last = score(0.0, true);
    let mut timeline = AudioTimeline::new(located(last));
    timeline.latest_revision = 7;
    let original = request(7, 0, loop_anchor(&located(last)));
    timeline.requested_window = Some(original);

    // Eight pages, reached through small updates rather than an explicit jump.
    for step in 1..=64 {
        let current = score(f64::from(step) * 0.25, true);
        timeline.sync_transport(located(current), current.motion_since(&last), None);
        timeline.schedule_audio_pages(&located(current), 0);
        last = current;
    }

    assert_eq!(timeline.requested_window, Some(original));
}

#[test]
fn page_windows_move_beyond_initial_budget_and_stay_bounded() {
    let page = AUDIO_PAGE_FRAMES;
    let total = page * 200 + 17;
    let focus = page * 140;
    let window = page_window(total, 2, focus, None);
    let bytes_per_page = PAGE_CHANNEL_BYTES * 2;
    let pages = window.end_frame.div_ceil(page) - window.start_frame / page;
    assert!(window.contains(focus));
    assert!(window.start_frame > 0);
    assert!(pages * bytes_per_page <= AUDIO_PAGE_BYTES);

    let end = page_window(total, 2, u64::MAX, None);
    assert!(end.contains(total - 1));
    assert_eq!(end.end_frame, total);
    assert_eq!(page_window(0, 2, u64::MAX, None).end_frame, 0);
}

#[test]
fn distant_loop_start_is_reserved_inside_the_same_page_budget() {
    let page = AUDIO_PAGE_FRAMES;
    let total = page * 200;
    let focus = page * 150;
    let loop_start = page * 2;
    let window = page_window(total, 2, focus, Some(loop_start));
    let primary = (window.end_frame - window.start_frame).div_ceil(page);
    let secondary = (window.secondary_end_frame - window.secondary_start_frame).div_ceil(page);
    assert!(window.contains(focus));
    assert!(window.contains(loop_start));
    assert!(primary + secondary <= 64);
}

#[test]
fn playback_lead_window_still_contains_the_current_playhead() {
    let page = AUDIO_PAGE_FRAMES;
    let current = page * 100;
    let focus = current + AUDIO_PREPARE_LEAD_PAGES * page;
    let window = page_window(page * 200, 2, focus, Some(page * 2));
    assert!(window.contains(current));
    assert!(window.contains(focus));
}

#[test]
fn pages_that_are_ready_are_not_rendered_again() {
    let page = AUDIO_PAGE_FRAMES;
    let window = page_window(page * 3, 2, 0, None);
    let plan = missing_pages(window, &vec![page]);
    assert_eq!(
        plan,
        vec![
            PageRequest { start_frame: 0, frames: page },
            PageRequest { start_frame: 2 * page, frames: page },
        ]
    );
}

#[test]
fn clean_close_ack_is_independent_of_a_full_event_queue() {
    let mut state = ProjectWorkerState::new(Some(1), 0);
    for revision in 1..=PROJECT_EVENTS as u64 + 8 {
        let _event: Event = state.applied(revision, Ok(()));
    }
    assert_eq!(state.revision, 40);
    let command: Command = ProjectCommand::Close;
    assert!(matches!(state.begin(&command), WorkerTask::Close));
    assert!(close_outcome(CloseReply::Answered(state.close_result(Ok(()))), false).is_ok());
}

#[test]
fn controller_close_drains_updates_not_seen_by_a_pump() {
    let mut controller = controller();
    let mut outbox = Vec::new();
    controller.accept_updates(vec![update(1)], 1, 91, 0, &mut outbox);
    assert!(outbox.is_empty());
    let commands = controller.begin_close();
    assert_eq!(commands.len(), 1);
    assert!(matches!(commands[0], ProjectCommand::Apply { revision: 1, transaction: "edit" }));
    assert!(controller.begin_close().is_empty());
}

#[test]
fn revision_gap_coalesces_to_the_latest_bounded_snapshot_on_close() {
    let mut controller = controller();
    let mut outbox = Vec::new();
    let kept: Vec<_> = (45..=300).map(|revision| update(revision)).collect();
    controller.accept_updates(kept, 300, 179, 0, &mut outbox);
    let commands = controller.begin_close();
    assert!(matches!(
        commands.last(),
        Some(ProjectCommand::ReplaceSnapshot { revision: 300, project: 179 })
    ));
}

#[test]
fn a_full_backlog_falls_back_to_one_snapshot() {
    let mut controller = controller();
    let mut outbox = Vec::new();
    let count = PROJECT_BACKLOG as u64 + 10;
    let edits: Vec<_> = (1..=count).map(|revision| update(revision)).collect();
    controller.accept_updates(edits, count, count as u32, 0, &mut outbox);
    assert!(controller.backlog.pending.len() <= PROJECT_BACKLOG);
    assert_eq!(controller.backlog.deferred.as_ref().unwrap().revision, count);
    let commands = controller.begin_close();
    assert!(matches!(commands.last(), Some(ProjectCommand::ReplaceSnapshot { .. })));
}

#[test]
fn a_snapshot_shows_the_project_at_the_look() {
    let mut controller = controller();
    let undo = ProjectUpdate { revision: 1, source: ChangeSource::Undo, transaction: None };
    let mut outbox = Vec::new();
    controller.accept_updates(vec![undo, update(2)], 2, 98, 8, &mut outbox);
    assert!(matches!(outbox[0], ProjectCommand::ReplaceSnapshot { revision: 1, project: 98 }));
    assert!(matches!(outbox[1], ProjectCommand::Apply { revision: 2, transaction: "edit" }));
}

#[test]
fn beat_mapping_supports_seek_and_loop_wrap_commands() {
    assert_eq!(beat_to_frame(beats(4.0), 120_000, 48_000), 96_000);
    assert_eq!(beat_to_frame(beats(f64::NAN), 120_000, 48_000), 0);
    assert_eq!(beat_to_frame(0, 120_000, 48_000), 0);
    assert_eq!(frame_to_beat(96_000, 120_000, 48_000), beats(4.0));
}

#[test]
fn the_playhead_never_leaves_the_composition() {
    assert_eq!(playhead_at(96_000, 120_000, RATE, beats(16.0)), beats(4.0));
    assert_eq!(playhead_at(384_000, 120_000, RATE, beats(16.0)), beats(16.0));
    assert_eq!(playhead_at(480_000, 120_000, RATE, beats(16.0)), beats(16.0));
}

#[test]
fn snapshot_transport_commands_reassert_the_timeline_state() {
    let (frame, commands) = timeline_state_commands(&located(score(2.0, true)));
    assert_eq!(frame, 48_000);
    assert_eq!(
        commands[0],
        RealtimeCommand::SetLoop(Some(LoopRange { start_frame: 0, end_frame: 384_000 }))
    );
    assert!(matches!(commands[2], RealtimeCommand::Seek(48_000)));
    assert!(matches!(commands[3], RealtimeCommand::Play));

    let (_, commands) = timeline_state_commands(&located(score(2.0, false)));
    assert!(matches!(commands[3], RealtimeCommand::Pause));
}

#[test]
fn seek_acknowledgement_cannot_freeze_after_playback_passes_the_target() {
    let forward = PendingSeek { target: 48_000, observed_before: 0 };
    assert!(seek_was_observed(forward, 60_000));

    let backward = PendingSeek { target: 12_000, observed_before: 96_000 };
    assert!(seek_was_observed(backward, 24_000));
    assert!(!seek_was_observed(backward, 100_000));
}

#[test]
fn preview_seconds_mapping_rounds_and_clamps() {
    assert_eq!(time_to_frame(nanos(-1.0), 48_000, 96_000), 0);
    assert_eq!(time_to_frame(nanos(f64::NAN), 48_000, 96_000), 0);
    assert_eq!(time_to_frame(NANOS / 2, 48_000, 96_000), 24_000);
    assert_eq!(time_to_frame(3 * NANOS, 48_000, 96_000), 96_000);
    assert_eq!(frame_to_time(24_000, 48_000), NANOS / 2);
}

#[test]
fn playing_on_is_told_apart_from_a_jump() {
    let last = score(4.0, true);
    let smooth = score(4.4, true).motion_since(&last);
    assert!(smooth.moved && !smooth.rewound && !smooth.leapt);
    assert!(score(3.9, true).motion_since(&last).rewound);
    assert!(!score(3.995, true).motion_since(&last).rewound);
    assert!(score(4.6, true).motion_since(&last).leapt);
    assert!(score(0.0, true).motion_since(&last).at_origin);
    let faster = MusicalTransport { tempo: 121_000, ..last };
    assert!(faster.motion_since(&last).tempo_changed);
    let longer = MusicalTransport { loop_end: beats(20.0), ..last };
    assert!(longer.motion_since(&last).loop_moved);
}

#[test]
fn a_render_that_is_current_is_played() {
    let mut controller = controller();
    controller.timeline.latest_revision = 3;
    controller.timeline.requested_window = Some(request(3, 0, None));
    let transport = located(score(1.0, true));
    let render = controller.accept_compile_completion(
        CompileResult {
            request: request(3, 0, None),
            window: page_window(480_000, 2, 0, None),
            result: Ok(snapshot(4)),
        },
        &transport,
        Some(100),
        0,
    );
    assert_eq!(render, Some(RenderState::Fresh));
    assert_eq!(
        controller.queue.line,
        vec![
            RealtimeCommand::InstallSnapshot(snapshot(4)),
            RealtimeCommand::SetLoop(Some(LoopRange { start_frame: 0, end_frame: 384_000 })),
            RealtimeCommand::SetMetronome(metronome()),
            RealtimeCommand::Seek(24_000),
            RealtimeCommand::Play,
        ]
    );
    assert_eq!(
        controller.timeline.telemetry_seek,
        Some(PendingSeek { target: 24_000, observed_before: 100 })
    );
    assert_eq!(controller.timeline.sync_callback_playhead(Some(100)), None);
    assert_eq!(controller.timeline.sync_callback_playhead(Some(24_100)), Some(24_100));
}

#[test]
fn a_broken_clock_silences_the_timeline() {
    let mut controller = controller();
    let transport = located(score(0.0, false));
    controller.invalidate_and_request_timeline(Err("no clock".to_string()), &transport, None);
    assert!(controller.timeline.timeline_clock_revision.is_none());
    let error = controller.status.error.as_ref().unwrap();
    assert_eq!(error.subsystem, Subsystem::TimelineClock);
    assert!(controller.queue.len() > 0);
}

#[test]
fn project_news_reach_the_status_line() {
    let mut controller = controller();
    let transport = located(score(0.0, false));
    let effects = controller.handle_project_news(
        ProjectNews::External { accepted: Ok(4) },
        &transport,
    );
    assert!(effects.project_replaced);
    controller.handle_project_news(ProjectNews::Saved(4), &transport);
    assert_eq!(controller.status.text(), Some("Saved revision 4".to_string()));
    let refused = controller.handle_project_news(
        ProjectNews::External { accepted: Err("broken".to_string()) },
        &transport,
    );
    assert!(!refused.project_replaced);
    assert_eq!(
        controller.status.error.as_ref().unwrap().subsystem,
        Subsystem::ExternalProject
    );
}

#[test]
fn an_error_is_news_once() {
    let mut status = StatusLine { notice: None, error: None };
    assert!(status.record_error(ControllerError::new(Subsystem::Audio, "gone")));
    assert!(!status.record_error(ControllerError::new(Subsystem::Audio, "gone")));
    assert!(status.record_error(ControllerError::new(Subsystem::Audio, "back")));
    status.notify(Notice::Imported("kick.wav".to_string()));
    assert!(status.text().is_some());
}

#[test]
fn the_command_line_is_bounded_and_keeps_what_must_not_be_lost() {
    let mut queue = CommandQueue::new();
    for _ in 0..AUDIO_BACKLOG {
        assert!(queue.enqueue(RealtimeCommand::Seek(1)));
    }
    assert_eq!(queue.len(), AUDIO_BACKLOG);
    assert!(!queue.enqueue(RealtimeCommand::LiveNoteOn { note: 60, velocity: 100 }));
    queue.force(RealtimeCommand::LiveAllNotesOff);
    assert!(queue.len() <= AUDIO_BACKLOG + 1);
    queue.withdraw(Withdrawal::Keyboard);
    assert!(queue.line.iter().all(|command| *command == RealtimeCommand::Seek(1)));
    queue.clear();
    assert_eq!(queue.front(), None);
}

#[test]
fn commands_leave_in_the_order_they_came() {
    let mut queue = CommandQueue::new();
    queue.enqueue(RealtimeCommand::Play);
    queue.enqueue(RealtimeCommand::Pause);
    assert_eq!(queue.flushed(SendOutcome::Full), FlushStep::Wait);
    assert_eq!(queue.front(), Some(RealtimeCommand::Play));
    assert_eq!(queue.flushed(SendOutcome::Sent), FlushStep::Continue);
    assert_eq!(queue.front(), Some(RealtimeCommand::Pause));
    assert_eq!(queue.flushed(SendOutcome::Disconnected), FlushStep::Fail);
}

#[test]
fn a_device_is_opened_again_after_a_while() {
    let mut device = DeviceState::new(0);
    let first = device.request_bootstrap_device(0).unwrap();
    device.request_device(true);
    assert!(device.request_bootstrap_device(0).is_none());
    assert!(!device.open_failed(false, 10));
    assert!(device.request_bootstrap_device(10).is_none());
    let second = device.request_bootstrap_device(10 + DEVICE_RETRY).unwrap();
    assert!(second > first);
    device.request_device(true);
    device.opened(true);
    assert!(device.takes_notifications());
    let error = device.handle_device_action(RecoveryAction::Exhausted { attempts: 3 }, 0).unwrap();
    assert_eq!(error.subsystem, Subsystem::AudioDevice);
    assert!(observation_is_current(11, 11));
    assert!(!observation_is_current(10, 11));
}

#[test]
fn a_preview_waits_for_its_sound_and_never_starts_alone() {
    let mut preview = AssetPreview::new(Ok(()));
    assert!(preview.status().loading);
    preview.pump(Arrival::Decoded(Ok(snapshot(2))), None, metronome());
    assert!(!preview.status().loading);
    assert!(!preview.status().playing);
    assert_eq!(preview.status().duration, 10 * NANOS);
    assert_eq!(preview.toggle(), Some(RealtimeCommand::Play));
    assert_eq!(preview.seek(2 * NANOS), Some(RealtimeCommand::Seek(96_000)));
    assert_eq!(preview.toggle(), Some(RealtimeCommand::Pause));
}

#[test]
fn a_preview_that_cannot_be_read_stays_silent() {
    let mut preview = AssetPreview::new(Ok(()));
    preview.pump(Arrival::Decoded(Err("bad file".to_string())), None, metronome());
    assert_eq!(preview.status().error, Some("bad file".to_string()));
    assert_eq!(preview.toggle(), None);
}

#[test]
fn renders_are_shown_on_nested_clips_only() {
    let compositions = vec![ShownComposition {
        tracks: vec![ShownTrack {
            clips: vec![
                ShownClip { id: 1, nested: false },
                ShownClip { id: 2, nested: true },
            ],
        }],
    }];
    assert_eq!(
        set_render_state(&compositions, RenderState::Stale),
        vec![(2, RenderState::Stale)]
    );
}

#[test]
fn only_project_documents_are_watched() {
    let file = |name: &str| vec![name.to_string()];
    assert_eq!(classify_entry(&file("project.json"), EntryKind::File), EntryAction::Fingerprint);
    assert_eq!(classify_entry(&file("kick.wav"), EntryKind::File), EntryAction::Skip);
    assert_eq!(classify_entry(&file("project.json"), EntryKind::Other), EntryAction::Skip);
}

#[test]
fn watching_gives_up_on_deep_trees() {
    let mut walk = TreeWalk::new();
    assert!(walk.next_directory().unwrap().is_some());
    assert!(walk.next_directory().unwrap().is_none());
    let path = vec!["tracks".to_string()];
    let action = walk.visit(path, WATCH_MAX_DEPTH, EntryKind::Directory);
    assert_eq!(action, Ok(EntryAction::Descend));
    assert_eq!(walk.next_directory().unwrap_err(), WalkError::TooDeep);
}

#[test]
fn the_timeline_rests_while_a_file_is_listened_to() {
    let last = score(0.0, false);
    let current = score(8.0, true);
    let motion = current.motion_since(&last);
    let mut controller: Controller = NativeController::new(located(last), None);
    controller.begin_asset_preview(Ok(()));
    assert_eq!(controller.pump(located(current), motion, None, 0), None);
    assert_eq!(controller.follow_callback(Some(5)), None);
    controller.toggle_asset_preview();
    assert!(controller.asset_preview_status().unwrap().playing);
    controller.pump_asset_preview(Arrival::Decoded(Ok(snapshot(1))), None, metronome());
    controller.play_asset_preview_range(NANOS, 2 * NANOS);
    assert_eq!(controller.asset_preview_status().unwrap().position, NANOS);
    controller.seek_asset_preview(3 * NANOS);
    assert_eq!(controller.queue.line.back(), Some(&RealtimeCommand::Seek(144_000)));
    controller.stop_asset_preview();
    assert_eq!(controller.queue.line.back(), Some(&RealtimeCommand::Stop));
    controller.end_asset_preview(&located(last), None, metronome());
    assert!(controller.asset_preview_status().is_none());
    let request = controller.pump(located(current), motion, None, 0).unwrap();
    assert_eq!(request.revision, 0);
}

#[test]
fn a_device_that_comes_back_is_announced_and_its_error_withdrawn() {
    let mut controller = controller();
    let mut device = DeviceState::new(0);
    let state = located(score(0.0, false));
    let look = controller.pump_device(&mut device, DeviceNews::Look, &state, None, metronome(), 0);
    assert_eq!(look, DeviceTask::Open { generation: 0, replacement: false });
    device.request_device(true);
    let failed = DeviceNews::Failed { replacement: false, error: "busy".to_string() };
    let task = controller.pump_device(&mut device, failed, &state, None, metronome(), 0);
    assert_eq!(task, DeviceTask::Nothing);
    assert_eq!(controller.status.text().unwrap(), "busy");
    let early = controller.pump_device(&mut device, DeviceNews::Look, &state, None, metronome(), 1);
    assert_eq!(early, DeviceTask::Nothing);
    let opened = DeviceNews::Opened { name: "Speakers".to_string(), watched: true };
    controller.pump_device(&mut device, opened, &state, None, metronome(), DEVICE_RETRY);
    assert_eq!(controller.status.text().unwrap(), "Audio device ready · Speakers");
    assert!(device.open && device.recovering);
    let look = controller.pump_device(&mut device, DeviceNews::Look, &state, None, metronome(), 0);
    assert_eq!(look, DeviceTask::PollPolicy);
    let open = DeviceNews::Policy(RecoveryAction::Open { generation: 7 });
    let task = controller.pump_device(&mut device, open, &state, None, metronome(), 0);
    assert_eq!(task, DeviceTask::Open { generation: 7, replacement: true });
    assert_eq!(device.next_generation, 8);
    let failed = DeviceNews::Failed { replacement: true, error: "gone".to_string() };
    let task = controller.pump_device(&mut device, failed, &state, None, metronome(), 0);
    assert_eq!(task, DeviceTask::ReportFailure);
    let given_up = DeviceNews::Policy(RecoveryAction::Exhausted { attempts: 3 });
    controller.pump_device(&mut device, given_up, &state, None, metronome(), 0);
    assert_eq!(
        controller.status.text().unwrap(),
        "device recovery exhausted after 3 attempt(s); retrying"
    );
    assert!(!device.open && !device.recovering);
}

#[test]
fn only_changes_of_the_devices_are_reported() {
    let seen = |name: &str, pinned: bool| DeviceObservation {
        default_output: Some(name.to_string()),
        pinned_available: pinned,
    };
    let mut watch = DeviceWatch::new(4);
    assert!(!watch.poll_device_observation(&None));
    assert!(watch.poll_device_observation(&Some(seen("a", false))));
    watch.sent(seen("a", false), false);
    assert!(watch.poll_device_observation(&Some(seen("a", false))));
    watch.sent(seen("a", false), true);
    assert!(!watch.poll_device_observation(&Some(seen("a", false))));
    assert!(watch.poll_device_observation(&Some(seen("b", false))));
    assert!(watch.poll_device_observation(&Some(seen("a", true))));
    assert_eq!(watch.generation, 4);
}

#[test]
fn a_window_is_rendered_page_by_page() {
    assert!(needs_compile(&None, 3));
    let prepared = Some(PreparedProject::new(3));
    assert!(!needs_compile(&prepared, 3));
    assert!(needs_compile(&prepared, 4));
    let mut project = prepared.unwrap();
    project.page_rendered(AUDIO_PAGE_FRAMES * 900);
    let length = AUDIO_PAGE_FRAMES * 1_000;
    let ask = request(3, 0, None);
    let (window, missing) = project.prepare_snapshot_window(ask, length, 0, 2);
    assert!(project.pages.is_empty());
    assert_eq!(missing.len() as u64, window.end_frame / AUDIO_PAGE_FRAMES);
    for page in missing.iter().rev() {
        project.page_rendered(page.start_frame);
    }
    assert!(project.pages.windows(2).all(|pair| pair[0] < pair[1]));
    let (again, missing) = project.prepare_snapshot_window(ask, length, 0, 2);
    assert_eq!(again, window);
    assert!(missing.is_empty());
}

#[test]
fn the_silent_timeline_is_as_long_as_the_root() {
    let compositions = vec![
        CompositionLength { id: 1, length: beats(2.0) },
        CompositionLength { id: 7, length: beats(4.0) },
    ];
    assert_eq!(silent_timeline_frames(&compositions, 7, 120_000, RATE), Ok(96_000));
    assert_eq!(
        silent_timeline_frames(&compositions, 9, 120_000, RATE),
        Err("root composition is missing".to_string())
    );
}

#[test]
fn journal_ack_follows_the_durable_append() {
    let mut disk = Disk::new();
    let command =
        ProjectCommand::Apply { revision: 7, transaction: Change::Name("Journaled") };
    assert!(matches!(disk.state.begin(&command), WorkerTask::ApplyTransaction));
    let events = disk.perform(command);
    assert_eq!(disk.journal.len(), 1);
    assert!(events.iter().any(|event| matches!(event, ProjectEvent::Journaled(7))));
    disk.perform(ProjectCommand::Close);
    assert!(disk.closed.unwrap().is_ok());
    let mut unwritten = ProjectWorkerState::new(Some(1), 0);
    let event: Event = unwritten.applied(7, Err("disk full".to_string()));
    assert!(matches!(event, ProjectEvent::Error(_)));
}
