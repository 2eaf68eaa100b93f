//! The shell's side of audio and persistence.
//!
//! The controller takes edits to the thread that owns the project on disk, keeps the
//! rendered timeline current, and tells the audio callback what to do.
use crate::asset_preview::{
    quiet_commands, silence_commands, Arrival, AssetPreview, AssetPreviewStatus, PreviewModel,
};
use crate::backlog::{BacklogModel, ProjectBacklog};
use crate::compile::{same_request, CompileResult, WindowRequest};
use crate::pages::least;
use crate::queue::{
    any_refused, enqueue_all_keeps_order, enqueue_keeps_order, enqueued, enqueued_all, orderly,
    refusable, refused, withdrawal_keeps_order, withdrawn, CommandQueue, FlushStep, Metronome,
    RealtimeCommand, SendOutcome, Snapshot, Withdrawal,
};
use crate::status::{ControllerError, Notice, StatusLine, StatusModel, Subsystem};
use crate::timeline::{
    anchor, completion_is_current, loop_anchor, state_commands, sync_commands,
    timeline_state_commands, AudioTimeline, Motion, ResidentWindow, Transport, AUDIO_COMPILE_RETRY,
};
use vstd::prelude::*;

verus! {

/// How far the render of a nested composition is.
#[derive(Clone, Copy, Debug, PartialEq, Eq, Structural)]
pub enum RenderState {
    Fresh,
    Stale,
    Rendering(u8),
}

/// The controller, over the transactions `T` and projects `P` of the shell.
#[derive(Debug)]
pub struct NativeController<T, P> {
    pub timeline: AudioTimeline,
    pub queue: CommandQueue,
    pub preview: Option<AssetPreview>,
    pub status: StatusLine,
    pub backlog: ProjectBacklog<T, P>,
    pub closed: bool,
}

/// The controller as a mathematical value.
#[verifier::ext_equal]
pub struct ControllerModel<T, P> {
    pub timeline: AudioTimeline,
    pub line: Seq<RealtimeCommand>,
    pub preview: Option<PreviewModel>,
    pub status: StatusModel,
    pub backlog: BacklogModel<T, P>,
    pub closed: bool,
}

/// The text of a command that found no room.
pub open spec fn queue_full_message() -> Seq<char> {
    "bounded realtime command queue is full"@
}

impl<T, P> View for NativeController<T, P> {
    type V = ControllerModel<T, P>;

    open spec fn view(&self) -> ControllerModel<T, P> {
        ControllerModel {
            timeline: self.timeline,
            line: self.queue@,
            preview: match self.preview {
                Some(preview) => Some(preview@),
                None => None,
            },
            status: self.status@,
            backlog: self.backlog@,
            closed: self.closed,
        }
    }
}

impl<T, P> ControllerModel<T, P> {
    /// The controller with an error raised.
    pub open spec fn raising(self, subsystem: Subsystem, message: Seq<char>) -> Self {
        ControllerModel {
            status: StatusModel { error: Some((subsystem, message)), ..self.status },
            ..self
        }
    }

    /// The controller with a notice shown.
    pub open spec fn noting(self, notice: Notice) -> Self {
        ControllerModel { status: StatusModel { notice: Some(notice), ..self.status }, ..self }
    }

    /// The controller after a command for the callback.
    pub open spec fn enqueuing(self, command: RealtimeCommand) -> Self {
        let queued = ControllerModel { line: enqueued(self.line, command), ..self };
        if refused(self.line, command) {
            queued.raising(Subsystem::Audio, queue_full_message())
        } else {
            queued
        }
    }

    /// The controller after several commands for the callback.
    pub open spec fn enqueuing_all(self, commands: Seq<RealtimeCommand>) -> Self {
        let queued = ControllerModel { line: enqueued_all(self.line, commands), ..self };
        if any_refused(self.line, commands) {
            queued.raising(Subsystem::Audio, queue_full_message())
        } else {
            queued
        }
    }

    /// The controller after it told the callback the state of the transport.
    pub open spec fn showing_state(self, transport: Transport, observed: Option<u64>) -> Self {
        (ControllerModel {
            timeline: self.timeline.seeking(transport.frame, observed),
            ..self
        }).enqueuing_all(state_commands(transport))
    }

    /// The controller after it followed a move of the transport.
    pub open spec fn following(
        self,
        current: Transport,
        motion: Motion,
        observed: Option<u64>,
    ) -> Self {
        (ControllerModel {
            timeline: self.timeline.synced(current, motion, observed),
            ..self
        }).enqueuing_all(sync_commands(self.timeline.last_transport, current, motion))
    }

    /// The controller after what it listens to changed, with commands for the callback.
    pub open spec fn previewed(self, change: (PreviewModel, Seq<RealtimeCommand>)) -> Self {
        (ControllerModel { preview: Some(change.0), ..self }).enqueuing_all(change.1)
    }

    /// The render that a move of the transport calls for.
    pub open spec fn move_request(self, current: Transport, motion: Motion) -> Option<
        WindowRequest,
    > {
        if crate::timeline::jumped(current, motion) || crate::timeline::loop_changed(
            self.timeline.last_transport,
            current,
            motion,
        ) {
            self.timeline.retarget(current, current.frame)
        } else {
            None
        }
    }

    /// Whether a finished render is still of use: it shows the latest revision, and no other
    /// window of that revision is awaited.
    pub open spec fn welcomes(self, request: WindowRequest) -> bool {
        &&& request.revision == self.timeline.latest_revision
        &&& self.timeline.requested_window is Some
            && self.timeline.requested_window->0.revision == request.revision
            ==> self.timeline.requested_window->0 == request
    }

    /// The timeline once a request was answered.
    pub open spec fn answered(self, request: WindowRequest) -> AudioTimeline {
        if self.timeline.requested_window == Some(request) {
            AudioTimeline { requested_window: None, ..self.timeline }
        } else {
            self.timeline
        }
    }

    /// The controller after a render that is of use succeeded.
    pub open spec fn rendered(
        self,
        completed: CompileResult<Snapshot>,
        snapshot: Snapshot,
        transport: Transport,
        observed: Option<u64>,
    ) -> Self {
        let resident = ControllerModel {
            timeline: AudioTimeline {
                compile_retry_at: None,
                timeline_clock_revision: None,
                resident_window: Some(
                    ResidentWindow {
                        revision: completed.request.revision,
                        window: completed.window,
                    },
                ),
                latest_snapshot: Some(snapshot),
                ..self.answered(completed.request)
            },
            ..self
        };
        let installed = if self.preview is None {
            resident.enqueuing(RealtimeCommand::InstallSnapshot(snapshot)).showing_state(
                transport,
                observed,
            )
        } else {
            resident
        };
        installed.noting(Notice::AudioReady(completed.request.revision))
    }

    /// The controller after a render that is of use failed.
    pub open spec fn render_failed(self, request: WindowRequest, message: Seq<char>, now: u64) -> Self {
        let answered = self.answered(request);
        (ControllerModel {
            timeline: AudioTimeline {
                compile_retry_at: if self.timeline.requested_window == Some(request) {
                    Some(least(now + AUDIO_COMPILE_RETRY, u64::MAX as int) as u64)
                } else {
                    answered.compile_retry_at
                },
                ..answered
            },
            ..self
        }).raising(Subsystem::AudioCompile, message)
    }

    /// The controller after the project changed under the rendered timeline: nothing of it
    /// is of use any more. A silent stand-in keeps the clock running where one could be made.
    pub open spec fn invalidated(
        self,
        clock: Result<Snapshot, String>,
        transport: Transport,
        observed: Option<u64>,
    ) -> Self {
        let bare = ControllerModel {
            timeline: AudioTimeline { resident_window: None, ..self.timeline },
            line: withdrawn(self.line, Withdrawal::Snapshots),
            ..self
        };
        let ticking = match clock {
            Ok(snapshot) => {
                let known = ControllerModel {
                    timeline: AudioTimeline {
                        timeline_clock_revision: Some(bare.timeline.latest_revision),
                        latest_snapshot: Some(snapshot),
                        ..bare.timeline
                    },
                    ..bare
                };
                if self.preview is None {
                    known.enqueuing(RealtimeCommand::InstallSnapshot(snapshot)).showing_state(
                        transport,
                        observed,
                    )
                } else {
                    known
                }
            },
            Err(message) => {
                let lost = ControllerModel {
                    timeline: AudioTimeline {
                        timeline_clock_revision: None,
                        latest_snapshot: None,
                        ..bare.timeline
                    },
                    ..bare
                };
                let quiet = if self.preview is None {
                    lost.enqueuing_all(silence_commands())
                } else {
                    lost
                };
                quiet.raising(Subsystem::TimelineClock, message@)
            },
        };
        ticking.asking(transport)
    }

    /// The request for the window that the transport needs.
    pub open spec fn window_for(self, transport: Transport) -> WindowRequest {
        WindowRequest {
            revision: self.timeline.latest_revision,
            focus_frame: transport.frame,
            secondary_frame: anchor(transport),
        }
    }

    /// The controller after it asked for the window that the transport needs.
    pub open spec fn asking(self, transport: Transport) -> Self {
        ControllerModel {
            timeline: self.timeline.requesting(self.window_for(transport)),
            ..self
        }
    }

    /// The controller after a project was taken in whole, at this revision.
    pub open spec fn taking_in(self, revision: u64, transport: Transport) -> Self {
        (ControllerModel {
            timeline: AudioTimeline {
                latest_revision: revision,
                resident_window: None,
                ..self.timeline
            },
            ..self
        }).asking(transport)
    }

    /// The commands that bring a new callback to where the old one was.
    pub open spec fn restored(
        self,
        transport: Transport,
        observed: Option<u64>,
        quiet: Metronome,
    ) -> Self {
        let blank = ControllerModel { line: Seq::empty(), ..self };
        match self.preview {
            Some(preview) => match preview.snapshot {
                Some(snapshot) => ControllerModel {
                    line: crate::asset_preview::install_commands(
                        snapshot,
                        preview.frame(),
                        preview.playing,
                        quiet,
                    ),
                    preview: Some(
                        PreviewModel { telemetry_seek: Some(preview.frame()), ..preview },
                    ),
                    ..self
                },
                None => ControllerModel { line: silence_commands(), ..self },
            },
            None => match self.timeline.latest_snapshot {
                None => ControllerModel { line: silence_commands(), ..self },
                Some(snapshot) => (ControllerModel {
                    line: seq![RealtimeCommand::InstallSnapshot(snapshot)],
                    ..blank
                }).showing_state(transport, observed),
            },
        }
    }
}

/// News from the thread that owns the project on disk, with what the project in memory made
/// of them: its revision since, or why it did not take them.
#[derive(Debug)]
pub enum ProjectNews {
    Journaled(u64),
    CanonicalReady(u64),
    External { accepted: Result<u64, String> },
    Saved(u64),
    Imported { revision: u64, name: String, accepted: Result<u64, String> },
    MediaSplit { revision: u64, count: u64, accepted: Result<u64, String> },
    Error(ControllerError),
}

/// What the shell does after news.
#[derive(Debug)]
pub struct NewsEffects {
    /// The render to ask for; nested compositions count as being rendered since.
    pub request: Option<WindowRequest>,
    /// The project was replaced, so its waveforms are to be drawn anew.
    pub project_replaced: bool,
}

/// The larger of two revisions.
pub open spec fn later(a: u64, b: u64) -> u64 {
    crate::persist::newer(a, b)
}

/// The controller after news.
pub open spec fn after_news<T, P>(
    controller: ControllerModel<T, P>,
    news: ProjectNews,
    transport: Transport,
) -> ControllerModel<T, P> {
    match news {
        ProjectNews::Journaled(revision) => controller.noting(Notice::Journaled(revision)),
        ProjectNews::CanonicalReady(revision) => if revision
            == controller.timeline.latest_revision && !controller.timeline.has_or_awaits(
            revision,
        ) {
            controller.asking(transport)
        } else {
            controller
        },
        ProjectNews::External { accepted } => match accepted {
            Ok(revision) => controller.taking_in(revision, transport).noting(
                Notice::LoadedExternal,
            ),
            Err(message) => controller.raising(Subsystem::ExternalProject, message@),
        },
        ProjectNews::Saved(revision) => controller.noting(Notice::Saved(revision)),
        ProjectNews::Imported { revision, name, accepted } => match accepted {
            Ok(current) => controller.taking_in(later(current, revision), transport).noting(
                Notice::Imported(name),
            ),
            Err(message) => controller.raising(Subsystem::AssetImport, message@),
        },
        ProjectNews::MediaSplit { revision, count, accepted } => if count == 0 {
            controller.raising(Subsystem::TempoRegionSplit, "split produced no assets"@)
        } else {
            match accepted {
                Ok(current) => controller.taking_in(later(current, revision), transport).noting(
                    Notice::CreatedRegions(count),
                ),
                Err(message) => controller.raising(Subsystem::TempoRegionSplit, message@),
            }
        },
        ProjectNews::Error(error) => controller.raising(error.subsystem, error.message@),
    }
}

/// Whether news replace the project.
pub open spec fn replaces_project(news: ProjectNews) -> bool {
    match news {
        ProjectNews::External { accepted } => accepted is Ok,
        ProjectNews::Imported { accepted, .. } => accepted is Ok,
        ProjectNews::MediaSplit { count, accepted, .. } => count > 0 && accepted is Ok,
        _ => false,
    }
}

/// Whether news call for a render.
pub open spec fn calls_for_render<T, P>(
    controller: ControllerModel<T, P>,
    news: ProjectNews,
) -> bool {
    ||| replaces_project(news)
    ||| news matches ProjectNews::CanonicalReady(revision) && revision
        == controller.timeline.latest_revision && !controller.timeline.has_or_awaits(revision)
}

impl<T, P> NativeController<T, P> {
    /// A controller over a project of which nothing is rendered.
    pub fn new(transport: Transport, notice: Option<Notice>) -> (controller: Self)
        ensures
            controller@.line == Seq::<RealtimeCommand>::empty(),
            controller@.preview is None,
            controller@.status == (StatusModel { notice, error: None }),
            controller@.backlog == (BacklogModel::<T, P> { pending: Seq::empty(), deferred: None }),
            !controller@.closed,
            controller@.timeline == AudioTimeline::fresh(transport),
    {
        NativeController {
            timeline: AudioTimeline::new(transport),
            queue: CommandQueue::new(),
            preview: None,
            status: StatusLine { notice, error: None },
            backlog: ProjectBacklog::new(),
            closed: false,
        }
    }

    /// Raises an error; the result tells whether it is news.
    pub fn record_error(&mut self, error: ControllerError) -> (news: bool)
        ensures
            final(self)@ == old(self)@.raising(error.subsystem, error.message@),
            news == !old(self).status.reports(error.subsystem, error.message@),
    {
        let news = self.status.record_error(error);
        assert(self@ =~= old(self)@.raising(error.subsystem, error.message@));
        news
    }

    fn set_error(&mut self, subsystem: Subsystem, message: &str)
        ensures
            final(self)@ == old(self)@.raising(subsystem, message@),
    {
        self.record_error(ControllerError::new(subsystem, message));
    }

    /// Shows a notice.
    pub fn notify(&mut self, notice: Notice)
        ensures
            final(self)@ == old(self)@.noting(notice),
    {
        self.status.notify(notice);
        assert(self@ =~= old(self)@.noting(notice));
    }

    /// Lets a command wait for the callback, or raises an error where there is no room.
    pub fn enqueue_audio(&mut self, command: RealtimeCommand)
        ensures
            final(self)@ == old(self)@.enqueuing(command),
            orderly(old(self)@.line) && refusable(command) ==> orderly(final(self)@.line),
    {
        proof {
            if orderly(self@.line) && refusable(command) {
                enqueue_keeps_order(self@.line, command);
            }
        }
        let accepted = self.queue.enqueue(command);
        if !accepted {
            self.set_error(Subsystem::Audio, "bounded realtime command queue is full");
        }
        assert(self@ =~= old(self)@.enqueuing(command));
    }

    /// Lets several commands wait for the callback.
    pub fn enqueue_audio_all(&mut self, commands: &Vec<RealtimeCommand>)
        ensures
            final(self)@ == old(self)@.enqueuing_all(commands@),
            orderly(old(self)@.line) && (forall|i: int|
                0 <= i < commands.len() ==> refusable(#[trigger] commands[i])) ==> orderly(
                final(self)@.line,
            ),
    {
        proof {
            if orderly(self@.line) && forall|i: int|
                0 <= i < commands.len() ==> refusable(#[trigger] commands[i]) {
                assert(forall|i: int|
                    0 <= i < commands@.len() ==> refusable(#[trigger] commands@[i])) by {
                    assert(forall|i: int| 0 <= i < commands@.len() ==> commands@[i] == commands[i]);
                }
                enqueue_all_keeps_order(self@.line, commands@);
            }
        }
        let accepted = self.queue.enqueue_all(commands);
        if !accepted {
            self.set_error(Subsystem::Audio, "bounded realtime command queue is full");
        }
        assert(self@ =~= old(self)@.enqueuing_all(commands@));
    }

    /// Notes how the callback took the front command; `true` means that more can be sent.
    pub fn flushed(&mut self, outcome: SendOutcome) -> (more: bool)
        requires
            old(self)@.line.len() > 0,
        ensures
            more == (outcome == SendOutcome::Sent),
            final(self)@ == (match outcome {
                SendOutcome::Full => old(self)@,
                SendOutcome::Sent => ControllerModel {
                    line: old(self)@.line.skip(1),
                    ..old(self)@
                },
                SendOutcome::Disconnected => (ControllerModel {
                    line: old(self)@.line.skip(1),
                    ..old(self)@
                }).raising(Subsystem::Audio, "audio callback disconnected"@),
            }),
    {
        match self.queue.flushed(outcome) {
            FlushStep::Continue => {
                assert(self@ =~= (ControllerModel {
                    line: old(self)@.line.skip(1),
                    ..old(self)@
                }));
                true
            },
            FlushStep::Wait => {
                assert(self@ =~= old(self)@);
                false
            },
            FlushStep::Fail => {
                self.set_error(Subsystem::Audio, "audio callback disconnected");
                assert(self@ =~= (ControllerModel {
                    line: old(self)@.line.skip(1),
                    ..old(self)@
                }).raising(Subsystem::Audio, "audio callback disconnected"@));
                false
            },
        }
    }

    /// Without a callback nothing waits for it.
    pub fn discard_audio(&mut self)
        ensures
            final(self)@ == (ControllerModel { line: Seq::empty(), ..old(self)@ }),
    {
        self.queue.clear();
        assert(self@ =~= (ControllerModel { line: Seq::empty(), ..old(self)@ }));
    }

    /// Tells the callback the state of the transport.
    pub fn enqueue_timeline_state(&mut self, transport: &Transport, observed: Option<u64>)
        ensures
            final(self)@ == old(self)@.showing_state(*transport, observed),
            orderly(old(self)@.line) ==> orderly(final(self)@.line),
    {
        let (frame, commands) = timeline_state_commands(transport);
        self.timeline.begin_telemetry_seek(frame, observed);
        let ghost sought = self@;
        assert(sought =~= (ControllerModel {
            timeline: old(self)@.timeline.seeking(transport.frame, observed),
            ..old(self)@
        }));
        assert(forall|i: int| 0 <= i < commands.len() ==> refusable(#[trigger] commands[i]));
        self.enqueue_audio_all(&commands);
    }

    /// Takes a finished render. One that is of no use any more changes nothing. The result
    /// tells how the render of nested compositions now stands.
    pub fn accept_compile_completion(
        &mut self,
        completed: CompileResult<Snapshot>,
        transport: &Transport,
        observed: Option<u64>,
        now: u64,
    ) -> (render: Option<RenderState>)
        ensures
            render == (if !old(self)@.welcomes(completed.request) {
                None
            } else if completed.result is Ok {
                Some(RenderState::Fresh)
            } else {
                Some(RenderState::Stale)
            }),
            final(self)@ == (if !old(self)@.welcomes(completed.request) {
                old(self)@
            } else {
                match completed.result {
                    Ok(snapshot) => old(self)@.rendered(
                        completed,
                        snapshot,
                        *transport,
                        observed,
                    ),
                    Err(message) => old(self)@.render_failed(completed.request, message@, now),
                }
            }),
            orderly(old(self)@.line) ==> orderly(final(self)@.line),
    {
        let ghost before = self@;
        let request = completed.request;
        if !completion_is_current(request.revision, self.timeline.latest_revision) {
            return None;
        }
        let mut answers = false;
        if let Some(awaited) = self.timeline.requested_window {
            answers = same_request(awaited, request);
            if awaited.revision == request.revision && !answers {
                return None;
            }
        }
        if answers {
            self.timeline.requested_window = None;
        }
        match completed.result {
            Ok(snapshot) => {
                self.timeline.compile_retry_at = None;
                self.timeline.timeline_clock_revision = None;
                self.timeline.resident_window = Some(
                    ResidentWindow { revision: request.revision, window: completed.window },
                );
                self.timeline.latest_snapshot = Some(snapshot);
                if self.preview.is_none() {
                    self.enqueue_audio(RealtimeCommand::InstallSnapshot(snapshot));
                    self.enqueue_timeline_state(transport, observed);
                }
                self.notify(Notice::AudioReady(request.revision));
                assert(self@ =~= before.rendered(completed, snapshot, *transport, observed));
                Some(RenderState::Fresh)
            },
            Err(message) => {
                if answers {
                    self.timeline.compile_retry_at = Some(now.saturating_add(AUDIO_COMPILE_RETRY));
                }
                let ghost text = message@;
                self.record_error(
                    ControllerError { subsystem: Subsystem::AudioCompile, message },
                );
                assert(self@ =~= before.render_failed(request, text, now));
                Some(RenderState::Stale)
            },
        }
    }

    /// Throws away what is rendered of a project that has changed, puts a silent stand-in in
    /// its place, and asks for a render of the latest revision.
    pub fn invalidate_and_request_timeline(
        &mut self,
        clock: Result<Snapshot, String>,
        transport: &Transport,
        observed: Option<u64>,
    ) -> (request: WindowRequest)
        ensures
            final(self)@ == old(self)@.invalidated(clock, *transport, observed),
            request == old(self)@.window_for(*transport),
            orderly(old(self)@.line) ==> orderly(final(self)@.line),
    {
        let ghost before = self@;
        self.timeline.resident_window = None;
        self.queue.withdraw(Withdrawal::Snapshots);
        proof {
            if orderly(before.line) {
                withdrawal_keeps_order(before.line, Withdrawal::Snapshots);
            }
        }
        match clock {
            Ok(snapshot) => {
                self.timeline.timeline_clock_revision = Some(self.timeline.latest_revision);
                self.timeline.latest_snapshot = Some(snapshot);
                if self.preview.is_none() {
                    self.enqueue_audio(RealtimeCommand::InstallSnapshot(snapshot));
                    self.enqueue_timeline_state(transport, observed);
                }
            },
            Err(message) => {
                self.timeline.timeline_clock_revision = None;
                self.timeline.latest_snapshot = None;
                if self.preview.is_none() {
                    let commands = quiet_commands();
                    assert(forall|i: int|
                        0 <= i < commands.len() ==> refusable(#[trigger] commands[i]));
                    self.enqueue_audio_all(&commands);
                }
                self.record_error(
                    ControllerError { subsystem: Subsystem::TimelineClock, message },
                );
            },
        }
        let request = self.ask_for_window(transport);
        assert(self@ =~= before.invalidated(clock, *transport, observed));
        request
    }

    /// Asks for the window that the transport needs.
    fn ask_for_window(&mut self, transport: &Transport) -> (request: WindowRequest)
        ensures
            request == old(self)@.window_for(*transport),
            final(self)@ == old(self)@.asking(*transport),
    {
        let request = self.timeline.request_audio_window(
            self.timeline.latest_revision,
            transport.frame,
            loop_anchor(transport),
        );
        assert(self@ =~= old(self)@.asking(*transport));
        request
    }

    fn take_in(&mut self, revision: u64, transport: &Transport) -> (request: WindowRequest)
        ensures
            final(self)@ == old(self)@.taking_in(revision, *transport),
            final(self)@.timeline.requested_window == Some(request),
    {
        self.timeline.latest_revision = revision;
        self.timeline.resident_window = None;
        let request = self.ask_for_window(transport);
        assert(self@ =~= old(self)@.taking_in(revision, *transport));
        request
    }

    /// Takes news from the thread that owns the project on disk.
    pub fn handle_project_news(
        &mut self,
        news: ProjectNews,
        transport: &Transport,
    ) -> (effects: NewsEffects)
        ensures
            final(self)@ == after_news(old(self)@, news, *transport),
            effects.project_replaced == replaces_project(news),
            effects.request is Some <==> calls_for_render(old(self)@, news),
            effects.request is Some ==> final(self)@.timeline.requested_window == effects.request,
    {
        let mut request = None;
        let mut project_replaced = false;
        match news {
            ProjectNews::Journaled(revision) => self.notify(Notice::Journaled(revision)),
            ProjectNews::CanonicalReady(revision) => {
                if revision == self.timeline.latest_revision
                    && !self.timeline.audio_revision_requested_or_resident(revision) {
                    request = Some(self.ask_for_window(transport));
                }
            },
            ProjectNews::External { accepted } => match accepted {
                Ok(revision) => {
                    request = Some(self.take_in(revision, transport));
                    project_replaced = true;
                    self.notify(Notice::LoadedExternal);
                },
                Err(message) => {
                    self.record_error(
                        ControllerError { subsystem: Subsystem::ExternalProject, message },
                    );
                },
            },
            ProjectNews::Saved(revision) => self.notify(Notice::Saved(revision)),
            ProjectNews::Imported { revision, name, accepted } => match accepted {
                Ok(current) => {
                    let latest: u64 = if current >= revision {
                        current
                    } else {
                        revision
                    };
                    request = Some(self.take_in(latest, transport));
                    project_replaced = true;
                    self.notify(Notice::Imported(name));
                },
                Err(message) => {
                    self.record_error(
                        ControllerError { subsystem: Subsystem::AssetImport, message },
                    );
                },
            },
            ProjectNews::MediaSplit { revision, count, accepted } => {
                if count == 0 {
                    self.set_error(Subsystem::TempoRegionSplit, "split produced no assets");
                } else {
                    match accepted {
                        Ok(current) => {
                            let latest: u64 = if current >= revision {
                                current
                            } else {
                                revision
                            };
                            request = Some(self.take_in(latest, transport));
                            project_replaced = true;
                            self.notify(Notice::CreatedRegions(count));
                        },
                        Err(message) => {
                            self.record_error(
                                ControllerError {
                                    subsystem: Subsystem::TempoRegionSplit,
                                    message,
                                },
                            );
                        },
                    }
                }
            },
            ProjectNews::Error(error) => {
                self.record_error(error);
            },
        }
        NewsEffects { request, project_replaced }
    }

    /// Follows a move of the transport.
    pub fn sync_transport(
        &mut self,
        current: Transport,
        motion: Motion,
        observed: Option<u64>,
    ) -> (request: Option<WindowRequest>)
        ensures
            final(self)@ == old(self)@.following(current, motion, observed),
            request == old(self)@.move_request(current, motion),
            orderly(old(self)@.line) ==> orderly(final(self)@.line),
    {
        let (commands, request) = self.timeline.sync_transport(current, motion, observed);
        assert(self@ =~= (ControllerModel {
            timeline: old(self)@.timeline.synced(current, motion, observed),
            ..old(self)@
        }));
        assert(forall|i: int| 0 <= i < commands.len() ==> refusable(#[trigger] commands[i]));
        self.enqueue_audio_all(&commands);
        request
    }

    /// Follows the transport, and asks for a render where the course of time calls for one.
    /// While a file is listened to the timeline rests.
    pub fn pump(
        &mut self,
        current: Transport,
        motion: Motion,
        observed: Option<u64>,
        now: u64,
    ) -> (request: Option<WindowRequest>)
        ensures
            old(self)@.preview is Some ==> final(self)@ == old(self)@ && request is None,
            old(self)@.preview is None ==> ({
                let followed = old(self)@.following(current, motion, observed);
                let asked = old(self)@.move_request(current, motion);
                let due = if asked is Some {
                    None
                } else {
                    followed.timeline.scheduled(current, now)
                };
                &&& request == (if asked is Some {
                    asked
                } else {
                    due
                })
                &&& final(self)@ == (ControllerModel {
                    timeline: followed.timeline.maybe_requesting(due),
                    ..followed
                })
            }),
            orderly(old(self)@.line) ==> orderly(final(self)@.line),
    {
        let ghost before = self@;
        if self.preview.is_some() {
            return None;
        }
        let asked = self.sync_transport(current, motion, observed);
        let ghost followed = self@;
        if asked.is_some() {
            assert(self@ =~= (ControllerModel {
                timeline: followed.timeline.maybe_requesting(None),
                ..followed
            }));
            return asked;
        }
        let due = self.timeline.schedule_audio_pages(&current, now);
        assert(self@ =~= (ControllerModel {
            timeline: followed.timeline.maybe_requesting(due),
            ..followed
        }));
        due
    }

    /// The frame that the playhead should show, where it should follow the callback. While a
    /// file is listened to it stays where it is.
    pub fn follow_callback(&mut self, observed: Option<u64>) -> (frame: Option<u64>)
        ensures
            frame == (if old(self)@.preview is None && old(self)@.timeline.follows(observed) {
                observed
            } else {
                None
            }),
            final(self)@ == (if frame is Some {
                ControllerModel {
                    timeline: AudioTimeline { telemetry_seek: None, ..old(self)@.timeline },
                    ..old(self)@
                }
            } else {
                old(self)@
            }),
    {
        let ghost before = self@;
        if self.preview.is_some() {
            return None;
        }
        let frame = self.timeline.sync_callback_playhead(observed);
        assert(frame is None ==> self@ =~= before);
        assert(frame is Some ==> self@ =~= (ControllerModel {
            timeline: AudioTimeline { telemetry_seek: None, ..before.timeline },
            ..before
        }));
        frame
    }

    /// Plays the file that is listened to, or pauses it.
    pub fn toggle_asset_preview(&mut self)
        ensures
            final(self)@ == (match old(self)@.preview {
                Some(preview) => old(self)@.previewed(preview.toggled()),
                None => old(self)@,
            }),
    {
        let ghost before = self@;
        if let Some(mut preview) = self.preview.take() {
            let ghost model = preview@;
            let mut commands: Vec<RealtimeCommand> = Vec::new();
            if let Some(command) = preview.toggle() {
                commands.push(command);
            }
            assert(commands@ =~= model.toggled().1);
            self.preview = Some(preview);
            assert(self@ =~= (ControllerModel { preview: Some(model.toggled().0), ..before }));
            self.enqueue_audio_all(&commands);
            assert(self@ =~= before.previewed(model.toggled()));
        } else {
            assert(self@ =~= before);
        }
    }

    /// Stops the file that is listened to.
    pub fn stop_asset_preview(&mut self)
        ensures
            final(self)@ == (match old(self)@.preview {
                Some(preview) => old(self)@.previewed(preview.stopped()),
                None => old(self)@,
            }),
    {
        let ghost before = self@;
        if let Some(mut preview) = self.preview.take() {
            let ghost model = preview@;
            let mut commands: Vec<RealtimeCommand> = Vec::new();
            if let Some(command) = preview.stop() {
                commands.push(command);
            }
            assert(commands@ =~= model.stopped().1);
            self.preview = Some(preview);
            assert(self@ =~= (ControllerModel { preview: Some(model.stopped().0), ..before }));
            self.enqueue_audio_all(&commands);
            assert(self@ =~= before.previewed(model.stopped()));
        } else {
            assert(self@ =~= before);
        }
    }

    /// Goes to a time of the file that is listened to.
    pub fn seek_asset_preview(&mut self, nanos: u64)
        ensures
            final(self)@ == (match old(self)@.preview {
                Some(preview) => old(self)@.previewed(preview.sought(nanos)),
                None => old(self)@,
            }),
    {
        let ghost before = self@;
        if let Some(mut preview) = self.preview.take() {
            let ghost model = preview@;
            let mut commands: Vec<RealtimeCommand> = Vec::new();
            if let Some(command) = preview.seek(nanos) {
                commands.push(command);
            }
            assert(commands@ =~= model.sought(nanos).1);
            self.preview = Some(preview);
            assert(self@ =~= (ControllerModel { preview: Some(model.sought(nanos).0), ..before }));
            self.enqueue_audio_all(&commands);
            assert(self@ =~= before.previewed(model.sought(nanos)));
        } else {
            assert(self@ =~= before);
        }
    }

    /// Plays a range of the file that is listened to.
    pub fn play_asset_preview_range(&mut self, start: u64, end: u64)
        ensures
            final(self)@ == (match old(self)@.preview {
                Some(preview) => old(self)@.previewed(preview.ranged(start, end)),
                None => old(self)@,
            }),
    {
        let ghost before = self@;
        if let Some(mut preview) = self.preview.take() {
            let ghost model = preview@;
            let commands = preview.play_range(start, end);
            self.preview = Some(preview);
            assert(self@ =~= (ControllerModel { preview: Some(model.ranged(start, end).0), ..before }));
            self.enqueue_audio_all(&commands);
            assert(self@ =~= before.previewed(model.ranged(start, end)));
        } else {
            assert(self@ =~= before);
        }
    }

    /// What the user sees of the file that is listened to.
    pub fn asset_preview_status(&self) -> (status: Option<AssetPreviewStatus>)
        ensures
            match self@.preview {
                Some(preview) => status matches Some(shown) && shown.loading == preview.loading
                    && shown.playing == preview.playing && shown.position == preview.position
                    && shown.duration == preview.duration && crate::asset_preview::text_view(
                    shown.error,
                ) == preview.error,
                None => status is None,
            },
    {
        match &self.preview {
            Some(preview) => Some(preview.status()),
            None => None,
        }
    }

    /// Starts to listen to a file: the callback is silenced, and what waited for it is
    /// forgotten.
    pub fn begin_asset_preview(&mut self, started: Result<(), String>)
        ensures
            final(self)@ == (ControllerModel {
                line: silence_commands(),
                preview: Some(
                    PreviewModel {
                        loading: started is Ok,
                        snapshot: None,
                        playing: false,
                        position: 0,
                        duration: 0,
                        range_end: None,
                        telemetry_seek: None,
                        error: match started {
                            Ok(_) => None,
                            Err(message) => Some(message@),
                        },
                    },
                ),
                ..old(self)@
            }),
    {
        self.queue.replace(&quiet_commands());
        self.preview = Some(AssetPreview::new(started));
        assert(self@.line =~= silence_commands());
    }

    /// Brings a new callback to where the old one was.
    pub fn restore_audio(
        &mut self,
        transport: &Transport,
        observed: Option<u64>,
        quiet: Metronome,
    )
        ensures
            final(self)@ == old(self)@.restored(*transport, observed, quiet),
    {
        let ghost before = self@;
        let mut preview = None;
        std::mem::swap(&mut preview, &mut self.preview);
        match preview {
            Some(mut preview) => {
                self.queue.replace(&preview.restore(quiet));
                self.preview = Some(preview);
                assert(self@ =~= before.restored(*transport, observed, quiet));
            },
            None => match self.timeline.latest_snapshot {
                None => {
                    self.queue.replace(&quiet_commands());
                    assert(self@ =~= before.restored(*transport, observed, quiet));
                },
                Some(snapshot) => {
                    self.queue.clear();
                    self.queue.force(RealtimeCommand::InstallSnapshot(snapshot));
                    assert(self@.line =~= seq![RealtimeCommand::InstallSnapshot(snapshot)]);
                    self.enqueue_timeline_state(transport, observed);
                    assert(self@ =~= before.restored(*transport, observed, quiet));
                },
            },
        }
    }

    /// Stops listening to a file and brings the timeline back. Nothing happens where no file
    /// is listened to.
    pub fn end_asset_preview(
        &mut self,
        transport: &Transport,
        observed: Option<u64>,
        quiet: Metronome,
    )
        ensures
            final(self)@ == (if old(self)@.preview is None {
                old(self)@
            } else {
                let restored = (ControllerModel { preview: None, ..old(self)@ }).restored(
                    *transport,
                    observed,
                    quiet,
                );
                ControllerModel {
                    timeline: AudioTimeline {
                        last_transport: *transport,
                        ..restored.timeline
                    },
                    ..restored
                }
            }),
    {
        if self.preview.is_some() {
            self.preview = None;
            assert(self@ =~= (ControllerModel { preview: None, ..old(self)@ }));
            self.restore_audio(transport, observed, quiet);
            let ghost restored = self@;
            self.timeline.last_transport = *transport;
            assert(self@ =~= (ControllerModel {
                timeline: AudioTimeline { last_transport: *transport, ..restored.timeline },
                ..restored
            }));
        } else {
            assert(self@ =~= old(self)@);
        }
    }

    /// Takes news of the file that is listened to, and looks at the callback.
    pub fn pump_asset_preview(
        &mut self,
        arrival: Arrival,
        observed: Option<u64>,
        quiet: Metronome,
    )
        ensures
            match old(self)@.preview {
                None => final(self)@ == old(self)@,
                Some(preview) => final(self)@ == (ControllerModel {
                    preview: Some(preview.after_arrival(arrival).after_look(observed)),
                    ..old(self)@
                }).enqueuing_all(
                    preview.arrival_commands(arrival, quiet) + if preview.after_arrival(
                        arrival,
                    ).ends(observed) {
                        seq![RealtimeCommand::Pause]
                    } else {
                        Seq::empty()
                    },
                ),
            },
    {
        let ghost before = self@;
        let mut preview = None;
        std::mem::swap(&mut preview, &mut self.preview);
        match preview {
            None => {
                assert(self@ =~= before);
            },
            Some(mut preview) => {
                let commands = preview.pump(arrival, observed, quiet);
                self.preview = Some(preview);
                assert(self@ =~= (ControllerModel {
                    preview: Some(
                        before.preview->0.after_arrival(arrival).after_look(observed),
                    ),
                    ..before
                }));
                self.enqueue_audio_all(&commands);
            },
        }
    }
}

/// An error and a notice are shown as they were raised, and touch nothing else.
pub proof fn news_is_shown<T, P>(
    controller: ControllerModel<T, P>,
    subsystem: Subsystem,
    message: Seq<char>,
    notice: Notice,
)
    ensures
        ({
            let raised = controller.raising(subsystem, message);
            let noted = controller.noting(notice);
            &&& raised.status.error == Some((subsystem, message))
            &&& raised.status.notice == controller.status.notice
            &&& raised.line == controller.line && raised.timeline == controller.timeline
                && raised.preview == controller.preview && raised.backlog == controller.backlog
                && raised.closed == controller.closed
            &&& noted.status.notice == Some(notice)
            &&& noted.status.error == controller.status.error
            &&& noted.line == controller.line && noted.timeline == controller.timeline
                && noted.preview == controller.preview && noted.backlog == controller.backlog
        }),
{
}

/// A command that the full line refuses is told as an error of the audio; one that fits goes in
/// silently.
pub proof fn full_lines_are_told<T, P>(
    controller: ControllerModel<T, P>,
    command: RealtimeCommand,
)
    requires
        !(command is InstallSnapshot),
    ensures
        ({
            let after = controller.enqueuing(command);
            &&& controller.line.len() < 128 ==> after.line == controller.line.push(command)
                && after.status == controller.status
            &&& controller.line.len() >= 128 ==> after.line == controller.line
                && after.status.error == Some((Subsystem::Audio, queue_full_message()))
            &&& after.timeline == controller.timeline && after.preview == controller.preview
        }),
{
    crate::queue::commands_go_to_the_end(controller.line, command);
}

/// A render that arrives becomes what is heard: it is resident, of its revision, and while no
/// file is listened to the callback gets it and the whole state of the transport behind it.
pub proof fn finished_renders_are_heard<T, P>(
    controller: ControllerModel<T, P>,
    completed: CompileResult<Snapshot>,
    snapshot: Snapshot,
    transport: Transport,
    observed: Option<u64>,
)
    requires
        controller.line.len() == 0,
    ensures
        ({
            let after = controller.rendered(completed, snapshot, transport, observed);
            &&& after.timeline.resident_window matches Some(resident) && resident.revision
                == completed.request.revision && resident.window == completed.window
            &&& after.timeline.latest_snapshot == Some(snapshot)
            &&& after.timeline.compile_retry_at is None
            &&& after.timeline.timeline_clock_revision is None
            &&& after.timeline.latest_revision == controller.timeline.latest_revision
            &&& controller.timeline.requested_window == Some(completed.request)
                ==> after.timeline.requested_window is None
            &&& controller.timeline.requested_window != Some(completed.request)
                ==> after.timeline.requested_window == controller.timeline.requested_window
            &&& after.status.notice == Some(Notice::AudioReady(completed.request.revision))
            &&& controller.preview is Some ==> after.line == controller.line
            &&& controller.preview is None ==> {
                &&& after.line == seq![RealtimeCommand::InstallSnapshot(snapshot)]
                    + state_commands(transport)
                &&& after.timeline.telemetry_seek matches Some(seek) && seek.target
                    == transport.frame
                &&& after.status.error == controller.status.error
            }
        }),
{
    let install = RealtimeCommand::InstallSnapshot(snapshot);
    let line = controller.line;
    crate::queue::commands_go_to_the_end(line, install);
    assert(line.push(install) =~= seq![install]);
    let commands = state_commands(transport);
    assert forall|i: int| 0 <= i < commands.len() implies !(
    #[trigger] commands[i] is InstallSnapshot) by {
    }
    crate::queue::commands_that_fit_go_in(seq![install], commands);
}

/// A render that failed is told, and if it is the one that was awaited it is not tried again for
/// a quarter of a second; what was rendered before is still heard.
pub proof fn failed_renders_rest<T, P>(
    controller: ControllerModel<T, P>,
    request: WindowRequest,
    message: Seq<char>,
    now: u64,
)
    requires
        now <= u64::MAX - 250,
    ensures
        ({
            let after = controller.render_failed(request, message, now);
            &&& after.status.error == Some((Subsystem::AudioCompile, message))
            &&& after.line == controller.line
            &&& after.timeline.resident_window == controller.timeline.resident_window
            &&& after.timeline.latest_snapshot == controller.timeline.latest_snapshot
            &&& controller.timeline.requested_window == Some(request)
                ==> after.timeline.requested_window is None && after.timeline.compile_retry_at
                == Some((now + 250) as u64)
            &&& controller.timeline.requested_window != Some(request)
                ==> after.timeline.requested_window == controller.timeline.requested_window
                && after.timeline.compile_retry_at == controller.timeline.compile_retry_at
        }),
{
}

/// A render is taken in only if it is of the latest revision and none other of that revision is
/// awaited.
pub proof fn late_renders_are_left<T, P>(
    controller: ControllerModel<T, P>,
    request: WindowRequest,
)
    ensures
        controller.welcomes(request) ==> request.revision == controller.timeline.latest_revision,
        controller.timeline.requested_window == Some(request) && request.revision
            == controller.timeline.latest_revision ==> controller.welcomes(request),
        (controller.timeline.requested_window matches Some(awaited) && awaited != request
            && awaited.revision == request.revision) ==> !controller.welcomes(request),
        request.revision == controller.timeline.latest_revision && (
        controller.timeline.requested_window matches Some(awaited) ==> awaited.revision
            != request.revision) ==> controller.welcomes(request),
{
}

/// An edit makes what is rendered useless: it is withdrawn, and a render of the latest revision
/// is asked for where the transport is. Meanwhile a clock of the same revision ticks, or silence
/// is kept and the reason told.
pub proof fn edits_make_renders_useless<T, P>(
    controller: ControllerModel<T, P>,
    snapshot: Snapshot,
    message: String,
    transport: Transport,
    observed: Option<u64>,
)
    requires
        controller.line.len() == 0,
    ensures
        ({
            let ticking = controller.invalidated(Ok(snapshot), transport, observed);
            let quiet = controller.invalidated(Err(message), transport, observed);
            let revision = controller.timeline.latest_revision;
            &&& ticking.timeline.resident_window is None && quiet.timeline.resident_window is None
            &&& ticking.timeline.requested_window matches Some(request) && request.revision
                == revision && request.focus_frame == transport.frame
            &&& quiet.timeline.requested_window == ticking.timeline.requested_window
            &&& ticking.timeline.latest_snapshot == Some(snapshot)
            &&& ticking.timeline.timeline_clock_revision == Some(revision)
            &&& quiet.timeline.latest_snapshot is None
            &&& quiet.timeline.timeline_clock_revision is None
            &&& quiet.status.error == Some((Subsystem::TimelineClock, message@))
            &&& controller.preview is Some ==> ticking.line.len() == 0 && quiet.line.len() == 0
            &&& controller.preview is None ==> ticking.line == seq![
                RealtimeCommand::InstallSnapshot(snapshot),
            ] + state_commands(transport)
            &&& controller.preview is None ==> quiet.line == seq![
                RealtimeCommand::Pause,
                RealtimeCommand::ClearSnapshot,
            ]
        }),
{
    let install = RealtimeCommand::InstallSnapshot(snapshot);
    let line = withdrawn(controller.line, Withdrawal::Snapshots);
    crate::queue::withdrawals_leave_the_others(controller.line, Withdrawal::Snapshots, install);
    assert(line =~= Seq::empty());
    crate::queue::commands_go_to_the_end(line, install);
    assert(line.push(install) =~= seq![install]);
    let commands = state_commands(transport);
    crate::queue::commands_that_fit_go_in(seq![install], commands);
    let silence = silence_commands();
    assert forall|i: int| 0 <= i < silence.len() implies !(
    #[trigger] silence[i] is InstallSnapshot) by {
    }
    crate::queue::commands_that_fit_go_in(line, silence);
    assert(line + silence =~= silence);
}

/// A project that is taken in counts from its revision on, and is rendered anew.
pub proof fn new_projects_are_rendered<T, P>(
    controller: ControllerModel<T, P>,
    revision: u64,
    transport: Transport,
)
    ensures
        ({
            let after = controller.taking_in(revision, transport);
            &&& after.timeline.latest_revision == revision
            &&& after.timeline.resident_window is None
            &&& after.timeline.requested_window matches Some(request) && request.revision
                == revision && request.focus_frame == transport.frame
            &&& after.timeline.compile_retry_at is None
            &&& after.line == controller.line && after.preview == controller.preview
                && after.status == controller.status && after.backlog == controller.backlog
        }),
{
}

/// A device that is opened anew gets back what was heard: the file that is listened to from where
/// it is, or else the arrangement with the whole state of the transport, or else silence.
pub proof fn new_devices_go_on_where_the_old_ones_were<T, P>(
    controller: ControllerModel<T, P>,
    transport: Transport,
    observed: Option<u64>,
    quiet: Metronome,
)
    ensures
        ({
            let after = controller.restored(transport, observed, quiet);
            let silence = seq![RealtimeCommand::Pause, RealtimeCommand::ClearSnapshot];
            &&& controller.preview is None && controller.timeline.latest_snapshot is None
                ==> after.line == silence
            &&& controller.preview is None ==> (controller.timeline.latest_snapshot matches Some(
                snapshot,
            ) ==> after.line == seq![RealtimeCommand::InstallSnapshot(snapshot)] + state_commands(
                transport,
            ))
            &&& controller.preview matches Some(preview) ==> {
                &&& preview.snapshot is None ==> after.line == silence
                &&& preview.snapshot matches Some(snapshot) ==> after.line[0]
                    == RealtimeCommand::InstallSnapshot(snapshot) && (after.line.contains(
                    RealtimeCommand::Play,
                ) <==> preview.playing) && after.line.contains(
                    RealtimeCommand::Seek(preview.frame()),
                )
            }
            &&& after.backlog == controller.backlog && after.closed == controller.closed
        }),
{
    if controller.preview is None && controller.timeline.latest_snapshot is Some {
        let line = seq![
            RealtimeCommand::InstallSnapshot(controller.timeline.latest_snapshot->0),
        ];
        crate::queue::commands_that_fit_go_in(line, state_commands(transport));
    }
    if controller.preview is Some && controller.preview->0.snapshot is Some {
        let after = controller.restored(transport, observed, quiet);
        assert(after.line[3] == RealtimeCommand::Seek(controller.preview->0.frame()));
        if controller.preview->0.playing {
            assert(after.line[4] == RealtimeCommand::Play);
        }
    }
}

/// The news of the project is told and taken in: what was accepted counts from its revision on,
/// or from the later one where there are two; what was not is an error of where it came from.
pub proof fn project_news_is_taken_in<T, P>(
    controller: ControllerModel<T, P>,
    transport: Transport,
    revision: u64,
    current: u64,
    name: String,
    count: u64,
    message: String,
)
    requires
        count > 0,
    ensures
        ({
            let latest = if current >= revision {
                current
            } else {
                revision
            };
            let journaled = after_news(controller, ProjectNews::Journaled(revision), transport);
            let saved = after_news(controller, ProjectNews::Saved(revision), transport);
            let outside = after_news(
                controller,
                ProjectNews::External { accepted: Ok(revision) },
                transport,
            );
            let refused = after_news(
                controller,
                ProjectNews::External { accepted: Err(message) },
                transport,
            );
            let imported = after_news(
                controller,
                ProjectNews::Imported { revision, name, accepted: Ok(current) },
                transport,
            );
            let split = after_news(
                controller,
                ProjectNews::MediaSplit { revision, count, accepted: Ok(current) },
                transport,
            );
            let empty = after_news(
                controller,
                ProjectNews::MediaSplit { revision, count: 0, accepted: Ok(current) },
                transport,
            );
            &&& journaled.status.notice == Some(Notice::Journaled(revision)) && journaled.timeline
                == controller.timeline
            &&& saved.status.notice == Some(Notice::Saved(revision)) && saved.timeline
                == controller.timeline
            &&& outside.timeline.latest_revision == revision && outside.timeline.resident_window
                is None && outside.status.notice == Some(Notice::LoadedExternal)
            &&& refused.timeline == controller.timeline && refused.status.error == Some(
                (Subsystem::ExternalProject, message@),
            )
            &&& imported.timeline.latest_revision == latest && imported.status.notice == Some(
                Notice::Imported(name),
            )
            &&& split.timeline.latest_revision == latest && split.status.notice == Some(
                Notice::CreatedRegions(count),
            )
            &&& empty.timeline == controller.timeline
            &&& empty.status.error matches Some(error) && error.0 == Subsystem::TempoRegionSplit
        }),
{
}

/// A project that is ready on disk is rendered exactly if it is the latest and nothing of it is
/// rendered or awaited; only a project that was accepted replaces the one that is shown.
pub proof fn ready_projects_are_rendered_once<T, P>(
    controller: ControllerModel<T, P>,
    transport: Transport,
    revision: u64,
)
    ensures
        ({
            let news = ProjectNews::CanonicalReady(revision);
            let after = after_news(controller, news, transport);
            let awaited = controller.timeline.requested_window matches Some(request)
                && request.revision == revision;
            let resident = controller.timeline.resident_window matches Some(window)
                && window.revision == revision;
            let due = revision == controller.timeline.latest_revision && !awaited && !resident;
            &&& calls_for_render(controller, news) <==> due
            &&& !due ==> after == controller
            &&& due ==> (after.timeline.requested_window matches Some(request) && request.revision
                == revision && request.focus_frame == transport.frame)
            &&& !replaces_project(news)
        }),
{
}

/// The transport is followed: its commands go to the callback, and what the move asks for is
/// asked for once.
pub proof fn transports_are_followed<T, P>(
    controller: ControllerModel<T, P>,
    current: Transport,
    motion: Motion,
    observed: Option<u64>,
)
    requires
        controller.line.len() <= 100,
    ensures
        ({
            let after = controller.following(current, motion, observed);
            let commands = sync_commands(controller.timeline.last_transport, current, motion);
            let put = if current.playing {
                motion.rewound || motion.leapt
            } else {
                motion.moved || motion.leapt
            };
            &&& after.line == controller.line + commands
            &&& after.status == controller.status
            &&& after.timeline.last_transport == current
            &&& put ==> (after.timeline.telemetry_seek matches Some(seek) && seek.target
                == current.frame)
            &&& controller.move_request(current, motion) matches Some(request)
                ==> after.timeline.requested_window == Some(request) && request.revision
                == controller.timeline.latest_revision
            &&& controller.move_request(current, motion) is None
                ==> after.timeline.requested_window == controller.timeline.requested_window
        }),
{
    let commands = sync_commands(controller.timeline.last_transport, current, motion);
    assert(commands.len() <= 4);
    assert forall|i: int| 0 <= i < commands.len() implies !(
    #[trigger] commands[i] is InstallSnapshot) by {
    }
    crate::queue::commands_that_fit_go_in(controller.line, commands);
}

/// What listening to a file asks of the callback goes into the line, and the file is as it became.
pub proof fn previews_reach_the_callback<T, P>(
    controller: ControllerModel<T, P>,
    preview: PreviewModel,
    command: RealtimeCommand,
)
    requires
        controller.line.len() < 128,
        !(command is InstallSnapshot),
    ensures
        ({
            let after = controller.previewed((preview, seq![command]));
            &&& after.preview == Some(preview)
            &&& after.line == controller.line.push(command)
            &&& after.timeline == controller.timeline && after.status == controller.status
        }),
{
    let commands = seq![command];
    crate::queue::commands_that_fit_go_in(controller.line, commands);
    assert(controller.line + commands =~= controller.line.push(command));
}

/// The project that is shown is replaced by one that was changed outside, by an import and by a
/// split that made anything, each if it was accepted; by nothing else.
pub proof fn accepted_projects_replace_the_shown(
    revision: u64,
    current: u64,
    name: String,
    count: u64,
    message: String,
    error: ControllerError,
)
    ensures
        replaces_project(ProjectNews::External { accepted: Ok(current) }),
        !replaces_project(ProjectNews::External { accepted: Err(message) }),
        replaces_project(ProjectNews::Imported { revision, name, accepted: Ok(current) }),
        !replaces_project(ProjectNews::Imported { revision, name, accepted: Err(message) }),
        replaces_project(ProjectNews::MediaSplit { revision, count, accepted: Ok(current) })
            <==> count > 0,
        !replaces_project(ProjectNews::MediaSplit { revision, count, accepted: Err(message) }),
        !replaces_project(ProjectNews::Journaled(revision)),
        !replaces_project(ProjectNews::Saved(revision)),
        !replaces_project(ProjectNews::Error(error)),
{
}

} // verus!
