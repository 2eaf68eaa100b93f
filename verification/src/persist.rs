//! The thread that owns the project on disk.
//!
//! The thread performs one task at a time for the shell. What it remembers between
//! tasks, what it reports, and when it saves or looks at the disk of its own
//! accord is decided here; the reading and writing happens around it.
use crate::status::{ControllerError, Subsystem};
use vstd::prelude::*;

verus! {

/// Commands that may wait for the thread.
pub const PROJECT_QUEUE: usize = 64;

/// Reports that may wait for the shell.
pub const PROJECT_EVENTS: usize = 32;

/// Milliseconds between two looks at the disk.
pub const WATCH_INTERVAL: u64 = 150;

/// The longest wait for a command, in milliseconds.
pub const COMMAND_WAIT: u64 = 25;

/// A part of a media file, in frames, with its tempo in thousandths of a beat per minute.
#[derive(Clone, Copy, Debug, PartialEq, Eq, Structural)]
pub struct MediaRegion {
    pub start_frame: u64,
    pub end_frame: u64,
    pub tempo: u32,
}

/// A command of the shell, over its transactions `T` and projects `P`.
#[derive(Debug)]
pub enum ProjectCommand<T, P> {
    Apply { revision: u64, transaction: T },
    ReplaceSnapshot { revision: u64, project: P },
    Save { revision: u64, project: P },
    ImportMedia { revision: u64, source: String },
    SplitImportedMedia { revision: u64, asset_id: u128, regions: Vec<MediaRegion> },
    Close,
    Abandon,
}

/// A report to the shell.
#[derive(Debug)]
pub enum ProjectEvent<T, P> {
    Journaled(u64),
    CanonicalReady(u64),
    External(P),
    Saved(u64),
    Imported {
        revision: u64,
        transaction: T,
        project: P,
        asset_id: u128,
        original_filename: String,
    },
    MediaSplit { revision: u64, transaction: T, project: P, asset_ids: Vec<u128> },
    Error(ControllerError),
}

/// What a command asks the thread to do.
#[derive(Debug)]
pub enum WorkerTask {
    Refuse(ControllerError),
    ApplyTransaction,
    RewriteProject,
    ImportMedia,
    SplitMedia,
    Close,
    Stop,
}

/// A finished media import.
#[derive(Debug)]
pub struct ImportedMedia<T, P> {
    pub transaction: T,
    pub project: P,
    pub asset_id: u128,
    pub original_filename: String,
}

/// A finished split of a media file.
#[derive(Debug)]
pub struct SplitMedia<T, P> {
    pub transaction: T,
    pub project: P,
    pub asset_ids: Vec<u128>,
}

/// What a look at the disk calls for.
#[derive(Debug)]
pub enum ExternalPoll {
    Unchanged,
    Report(ControllerError),
    Reload,
}

/// What the thread remembers.
#[derive(Clone, Copy, Debug, PartialEq, Eq, Structural)]
pub struct ProjectWorkerState {
    /// Journaled edits are not in the project file yet.
    pub dirty: bool,
    /// An edit could not be journaled; further edits are refused.
    pub failed: bool,
    /// The newest revision that reached the disk.
    pub revision: u64,
    /// The fingerprint of the tree as the thread last wrote or read it.
    pub baseline: Option<u64>,
    /// When the disk is looked at next, in milliseconds.
    pub next_watch: u64,
}

/// Something that happened to the project on disk.
pub enum WorkerStep {
    /// An edit of this revision was journaled, or was not.
    Applied { revision: u64, done: bool },
    /// The whole project was written, or was not.
    Rewritten { revision: u64, done: bool, fingerprint: Option<u64> },
    /// Media was brought in and the project reloaded.
    Produced { revision: u64 },
    /// The shell took the news of the new media.
    Delivered { fingerprint: Option<u64> },
    /// Journaled edits were folded into the project file.
    Checkpointed { fingerprint: Option<u64> },
    /// A project changed by another program was loaded.
    Reloaded { fingerprint: Option<u64> },
}

/// The text that refuses an edit after a failed one.
pub open spec fn paused_message() -> Seq<char> {
    "persistence is paused; use Save to retry the latest atomic snapshot"@
}

/// The text of a close that leaves edits behind.
pub open spec fn unsaved_message() -> Seq<char> {
    "one or more accepted edits could not be persisted before close"@
}

/// The text of a change on disk that meets unsaved edits.
pub open spec fn conflict_message() -> Seq<char> {
    "external canonical change arrived while GUI edits are pending"@
}

/// The larger of two revisions.
pub open spec fn newer(a: u64, b: u64) -> u64 {
    if a >= b {
        a
    } else {
        b
    }
}

fn newer_revision(a: u64, b: u64) -> (revision: u64)
    ensures
        revision == newer(a, b),
{
    if a >= b {
        a
    } else {
        b
    }
}

impl ProjectWorkerState {
    /// The state after a step.
    pub open spec fn after(self, step: WorkerStep) -> Self {
        match step {
            WorkerStep::Applied { revision, done } => if done {
                ProjectWorkerState {
                    dirty: true,
                    revision: newer(self.revision, revision),
                    ..self
                }
            } else {
                ProjectWorkerState { failed: true, ..self }
            },
            WorkerStep::Rewritten { revision, done, fingerprint } => if done {
                ProjectWorkerState {
                    dirty: false,
                    failed: false,
                    revision: newer(self.revision, revision),
                    baseline: fingerprint,
                    ..self
                }
            } else {
                ProjectWorkerState { failed: true, ..self }
            },
            WorkerStep::Produced { revision } => ProjectWorkerState {
                dirty: false,
                failed: false,
                revision: newer(self.revision, revision),
                ..self
            },
            WorkerStep::Delivered { fingerprint } => ProjectWorkerState {
                baseline: fingerprint,
                ..self
            },
            WorkerStep::Checkpointed { fingerprint } => ProjectWorkerState {
                dirty: false,
                baseline: fingerprint,
                ..self
            },
            WorkerStep::Reloaded { fingerprint } => ProjectWorkerState {
                baseline: fingerprint,
                ..self
            },
        }
    }

    /// A thread that has just opened a project with this fingerprint.
    pub fn new(baseline: Option<u64>, now: u64) -> (state: Self)
        ensures
            !state.dirty,
            !state.failed,
            state.revision == 0,
            state.baseline == baseline,
            state.next_watch == crate::pages::least(now + WATCH_INTERVAL, u64::MAX as int),
    {
        ProjectWorkerState {
            dirty: false,
            failed: false,
            revision: 0,
            baseline,
            next_watch: now.saturating_add(WATCH_INTERVAL),
        }
    }

    /// How long to wait for a command.
    pub fn wait_millis(&self, now: u64) -> (wait: u64)
        ensures
            wait == crate::pages::least(
                crate::pages::greatest(self.next_watch - now, 0),
                COMMAND_WAIT as int,
            ),
    {
        let left: u64 = self.next_watch.saturating_sub(now);
        if left <= COMMAND_WAIT {
            left
        } else {
            COMMAND_WAIT
        }
    }

    /// Whether it is time to look at the disk.
    pub fn watch_due(&self, now: u64) -> (due: bool)
        ensures
            due == (now >= self.next_watch),
    {
        now >= self.next_watch
    }

    /// Sets the time of the next look.
    pub fn watched(&mut self, now: u64)
        ensures
            *final(self) == (ProjectWorkerState {
                next_watch: crate::pages::least(now + WATCH_INTERVAL, u64::MAX as int) as u64,
                ..*old(self)
            }),
    {
        self.next_watch = now.saturating_add(WATCH_INTERVAL);
    }

    /// What a command asks for. After a failed edit further edits are refused.
    pub fn begin<T, P>(&self, command: &ProjectCommand<T, P>) -> (task: WorkerTask)
        ensures
            match *command {
                ProjectCommand::Apply { .. } => if self.failed {
                    task is Refuse && task->Refuse_0.says(
                        Subsystem::Persistence,
                        paused_message(),
                    )
                } else {
                    task is ApplyTransaction
                },
                ProjectCommand::ReplaceSnapshot { .. } => task is RewriteProject,
                ProjectCommand::Save { .. } => task is RewriteProject,
                ProjectCommand::ImportMedia { .. } => task is ImportMedia,
                ProjectCommand::SplitImportedMedia { .. } => task is SplitMedia,
                ProjectCommand::Close => task is Close,
                ProjectCommand::Abandon => task is Stop,
            },
    {
        match command {
            ProjectCommand::Apply { .. } => if self.failed {
                WorkerTask::Refuse(
                    ControllerError::new(
                        Subsystem::Persistence,
                        "persistence is paused; use Save to retry the latest atomic snapshot",
                    ),
                )
            } else {
                WorkerTask::ApplyTransaction
            },
            ProjectCommand::ReplaceSnapshot { .. } => WorkerTask::RewriteProject,
            ProjectCommand::Save { .. } => WorkerTask::RewriteProject,
            ProjectCommand::ImportMedia { .. } => WorkerTask::ImportMedia,
            ProjectCommand::SplitImportedMedia { .. } => WorkerTask::SplitMedia,
            ProjectCommand::Close => WorkerTask::Close,
            ProjectCommand::Abandon => WorkerTask::Stop,
        }
    }

    /// An edit was journaled, or was not. A failure stops the journal.
    pub fn applied<T, P>(
        &mut self,
        revision: u64,
        outcome: Result<(), String>,
    ) -> (event: ProjectEvent<T, P>)
        ensures
            *final(self) == old(self).after(
                WorkerStep::Applied { revision, done: outcome is Ok },
            ),
            match outcome {
                Ok(_) => event == ProjectEvent::<T, P>::Journaled(revision),
                Err(message) => event == ProjectEvent::<T, P>::Error(
                    ControllerError { subsystem: Subsystem::Persistence, message },
                ),
            },
    {
        match outcome {
            Ok(_) => {
                self.dirty = true;
                self.revision = newer_revision(self.revision, revision);
                ProjectEvent::Journaled(revision)
            },
            Err(message) => {
                self.failed = true;
                ProjectEvent::Error(
                    ControllerError { subsystem: Subsystem::Persistence, message },
                )
            },
        }
    }

    fn rewritten(&mut self, revision: u64, done: bool, fingerprint: Option<u64>)
        ensures
            *final(self) == old(self).after(WorkerStep::Rewritten { revision, done, fingerprint }),
    {
        if done {
            self.dirty = false;
            self.failed = false;
            self.revision = newer_revision(self.revision, revision);
            self.baseline = fingerprint;
        } else {
            self.failed = true;
        }
    }

    /// The project was replaced, or was not. Success ends a pause.
    pub fn replaced<T, P>(
        &mut self,
        revision: u64,
        outcome: Result<(), String>,
        fingerprint: Option<u64>,
    ) -> (event: ProjectEvent<T, P>)
        ensures
            *final(self) == old(self).after(
                WorkerStep::Rewritten { revision, done: outcome is Ok, fingerprint },
            ),
            match outcome {
                Ok(_) => event == ProjectEvent::<T, P>::CanonicalReady(revision),
                Err(message) => event == ProjectEvent::<T, P>::Error(
                    ControllerError { subsystem: Subsystem::Persistence, message },
                ),
            },
    {
        self.rewritten(revision, outcome.is_ok(), fingerprint);
        match outcome {
            Ok(_) => ProjectEvent::CanonicalReady(revision),
            Err(message) => ProjectEvent::Error(
                ControllerError { subsystem: Subsystem::Persistence, message },
            ),
        }
    }

    /// The project was saved at the user's word, or was not. Success ends a pause and
    /// is reported for the newest revision on disk.
    pub fn saved<T, P>(
        &mut self,
        revision: u64,
        outcome: Result<(), String>,
        fingerprint: Option<u64>,
    ) -> (events: Vec<ProjectEvent<T, P>>)
        ensures
            *final(self) == old(self).after(
                WorkerStep::Rewritten { revision, done: outcome is Ok, fingerprint },
            ),
            match outcome {
                Ok(_) => events@ == seq![
                    ProjectEvent::<T, P>::CanonicalReady(newer(old(self).revision, revision)),
                    ProjectEvent::<T, P>::Saved(newer(old(self).revision, revision)),
                ],
                Err(message) => events@ == seq![
                    ProjectEvent::<T, P>::Error(
                        ControllerError { subsystem: Subsystem::Persistence, message },
                    ),
                ],
            },
    {
        self.rewritten(revision, outcome.is_ok(), fingerprint);
        let mut events: Vec<ProjectEvent<T, P>> = Vec::new();
        match outcome {
            Ok(_) => {
                events.push(ProjectEvent::CanonicalReady(self.revision));
                events.push(ProjectEvent::Saved(self.revision));
            },
            Err(message) => events.push(
                ProjectEvent::Error(
                    ControllerError { subsystem: Subsystem::Persistence, message },
                ),
            ),
        }
        events
    }

    fn produced(&mut self, revision: u64)
        ensures
            *final(self) == old(self).after(WorkerStep::Produced { revision }),
    {
        self.dirty = false;
        self.failed = false;
        self.revision = newer_revision(self.revision, revision);
    }

    /// Media was imported, or was not. A failed import leaves the thread as it was.
    pub fn imported<T, P>(
        &mut self,
        revision: u64,
        outcome: Result<ImportedMedia<T, P>, String>,
    ) -> (event: ProjectEvent<T, P>)
        ensures
            match outcome {
                Ok(media) => {
                    &&& *final(self) == old(self).after(WorkerStep::Produced { revision })
                    &&& event == ProjectEvent::Imported {
                        revision,
                        transaction: media.transaction,
                        project: media.project,
                        asset_id: media.asset_id,
                        original_filename: media.original_filename,
                    }
                },
                Err(message) => {
                    &&& *final(self) == *old(self)
                    &&& event == ProjectEvent::<T, P>::Error(
                        ControllerError { subsystem: Subsystem::AssetImport, message },
                    )
                },
            },
    {
        match outcome {
            Ok(media) => {
                self.produced(revision);
                ProjectEvent::Imported {
                    revision,
                    transaction: media.transaction,
                    project: media.project,
                    asset_id: media.asset_id,
                    original_filename: media.original_filename,
                }
            },
            Err(message) => ProjectEvent::Error(
                ControllerError { subsystem: Subsystem::AssetImport, message },
            ),
        }
    }

    /// Media was split, or was not. A failed split leaves the thread as it was.
    pub fn media_split<T, P>(
        &mut self,
        revision: u64,
        outcome: Result<SplitMedia<T, P>, String>,
    ) -> (event: ProjectEvent<T, P>)
        ensures
            match outcome {
                Ok(media) => {
                    &&& *final(self) == old(self).after(WorkerStep::Produced { revision })
                    &&& event == ProjectEvent::MediaSplit {
                        revision,
                        transaction: media.transaction,
                        project: media.project,
                        asset_ids: media.asset_ids,
                    }
                },
                Err(message) => {
                    &&& *final(self) == *old(self)
                    &&& event == ProjectEvent::<T, P>::Error(
                        ControllerError { subsystem: Subsystem::TempoRegionSplit, message },
                    )
                },
            },
    {
        match outcome {
            Ok(media) => {
                self.produced(revision);
                ProjectEvent::MediaSplit {
                    revision,
                    transaction: media.transaction,
                    project: media.project,
                    asset_ids: media.asset_ids,
                }
            },
            Err(message) => ProjectEvent::Error(
                ControllerError { subsystem: Subsystem::TempoRegionSplit, message },
            ),
        }
    }

    /// The shell took the news of new media, so the tree as it now is counts as known.
    pub fn delivered(&mut self, fingerprint: Option<u64>)
        ensures
            *final(self) == old(self).after(WorkerStep::Delivered { fingerprint }),
    {
        self.baseline = fingerprint;
    }

    /// Whether journaled edits wait to be folded into the project file.
    pub fn checkpoint_due(&self) -> (due: bool)
        ensures
            due == (self.dirty && !self.failed),
    {
        self.dirty && !self.failed
    }

    /// The journal was folded (`Ok(true)`), is still in use (`Ok(false)`), or failed.
    pub fn checkpointed<T, P>(
        &mut self,
        outcome: Result<bool, String>,
        fingerprint: Option<u64>,
    ) -> (event: Option<ProjectEvent<T, P>>)
        ensures
            match outcome {
                Ok(true) => {
                    &&& *final(self) == old(self).after(WorkerStep::Checkpointed { fingerprint })
                    &&& event == Some(ProjectEvent::<T, P>::CanonicalReady(old(self).revision))
                },
                Ok(false) => *final(self) == *old(self) && event is None,
                Err(message) => {
                    &&& *final(self) == *old(self)
                    &&& event == Some(
                        ProjectEvent::<T, P>::Error(
                            ControllerError { subsystem: Subsystem::Persistence, message },
                        ),
                    )
                },
            },
    {
        match outcome {
            Ok(folded) => if folded {
                self.dirty = false;
                self.baseline = fingerprint;
                Some(ProjectEvent::CanonicalReady(self.revision))
            } else {
                None
            },
            Err(message) => Some(
                ProjectEvent::Error(
                    ControllerError { subsystem: Subsystem::Persistence, message },
                ),
            ),
        }
    }

    /// Decides what a look at the disk calls for. A tree that did not change calls for
    /// nothing; one that changed under unsaved edits is reported and left alone.
    pub fn poll(&self, fingerprint: Result<u64, String>) -> (poll: ExternalPoll)
        ensures
            match fingerprint {
                Err(message) => poll == ExternalPoll::Report(
                    ControllerError { subsystem: Subsystem::Watcher, message },
                ),
                Ok(value) => if self.baseline == Some(value) {
                    poll is Unchanged
                } else if self.dirty {
                    poll is Report && poll->Report_0.says(Subsystem::Watcher, conflict_message())
                } else {
                    poll is Reload
                },
            },
    {
        match fingerprint {
            Err(message) => ExternalPoll::Report(
                ControllerError { subsystem: Subsystem::Watcher, message },
            ),
            Ok(value) => {
                let known = match self.baseline {
                    Some(baseline) => baseline == value,
                    None => false,
                };
                if known {
                    ExternalPoll::Unchanged
                } else if self.dirty {
                    ExternalPoll::Report(
                        ControllerError::new(
                            Subsystem::Watcher,
                            "external canonical change arrived while GUI edits are pending",
                        ),
                    )
                } else {
                    ExternalPoll::Reload
                }
            },
        }
    }

    /// The project on disk was loaded again, with the project where it differs from the
    /// one at hand. A failed load keeps the last project that was valid.
    pub fn reloaded<T, P>(
        &mut self,
        outcome: Result<Option<P>, String>,
        fingerprint: Option<u64>,
    ) -> (event: Option<ProjectEvent<T, P>>)
        ensures
            match outcome {
                Ok(project) => {
                    &&& *final(self) == old(self).after(WorkerStep::Reloaded { fingerprint })
                    &&& event == (match project {
                        Some(project) => Some(ProjectEvent::<T, P>::External(project)),
                        None => None,
                    })
                },
                Err(message) => {
                    &&& *final(self) == *old(self)
                    &&& event == Some(
                        ProjectEvent::<T, P>::Error(
                            ControllerError { subsystem: Subsystem::ExternalProject, message },
                        ),
                    )
                },
            },
    {
        match outcome {
            Ok(project) => {
                self.baseline = fingerprint;
                match project {
                    Some(project) => Some(ProjectEvent::External(project)),
                    None => None,
                }
            },
            Err(message) => Some(
                ProjectEvent::Error(
                    ControllerError { subsystem: Subsystem::ExternalProject, message },
                ),
            ),
        }
    }

    /// What a clean close reports: the error of closing, else that edits were lost.
    pub fn close_result(&self, outcome: Result<(), String>) -> (result: Result<
        (),
        ControllerError,
    >)
        ensures
            match outcome {
                Err(message) => result == Err::<(), ControllerError>(
                    ControllerError { subsystem: Subsystem::Persistence, message },
                ),
                Ok(_) => if self.failed {
                    result is Err && result->Err_0.says(Subsystem::Persistence, unsaved_message())
                } else {
                    result is Ok
                },
            },
    {
        match outcome {
            Err(message) => Err(ControllerError { subsystem: Subsystem::Persistence, message }),
            Ok(_) => if self.failed {
                Err(
                    ControllerError::new(
                        Subsystem::Persistence,
                        "one or more accepted edits could not be persisted before close",
                    ),
                )
            } else {
                Ok(())
            },
        }
    }
}

/// How the thread answered the wish to close it.
#[derive(Debug)]
pub enum CloseReply {
    /// It had been closed before.
    AlreadyClosed,
    /// It was told to stop without saving.
    Abandoned,
    /// It was gone before the wish reached it.
    Disconnected,
    /// It went away without an answer.
    Dropped,
    /// It answered.
    Answered(Result<(), ControllerError>),
}

/// What closing the thread comes to, where `panicked` says how the thread ended.
pub fn close_outcome(reply: CloseReply, panicked: bool) -> (result: Result<(), ControllerError>)
    ensures
        match reply {
            CloseReply::Disconnected => result is Err && result->Err_0.says(
                Subsystem::Persistence,
                "project worker disconnected before clean close"@,
            ),
            CloseReply::Dropped => result is Err && result->Err_0.says(
                Subsystem::Persistence,
                "project worker dropped its clean-close result"@,
            ),
            CloseReply::Answered(Err(error)) => result == Err::<(), ControllerError>(error),
            _ => if panicked {
                result is Err && result->Err_0.says(
                    Subsystem::Persistence,
                    "project worker panicked during close"@,
                )
            } else {
                result is Ok
            },
        },
{
    let result = match reply {
        CloseReply::AlreadyClosed => Ok(()),
        CloseReply::Abandoned => Ok(()),
        CloseReply::Disconnected => Err(
            ControllerError::new(
                Subsystem::Persistence,
                "project worker disconnected before clean close",
            ),
        ),
        CloseReply::Dropped => Err(
            ControllerError::new(
                Subsystem::Persistence,
                "project worker dropped its clean-close result",
            ),
        ),
        CloseReply::Answered(answer) => answer,
    };
    match result {
        Err(error) => Err(error),
        Ok(_) => if panicked {
            Err(
                ControllerError::new(
                    Subsystem::Persistence,
                    "project worker panicked during close",
                ),
            )
        } else {
            Ok(())
        },
    }
}

/// The revision on disk never falls back.
pub proof fn revision_never_falls(state: ProjectWorkerState, step: WorkerStep)
    ensures
        state.after(step).revision >= state.revision,
{
}

/// A pause lasts until the whole project is written or read anew: no journaled edit,
/// checkpoint or look at the disk ends it.
pub proof fn pause_ends_only_with_a_new_snapshot(state: ProjectWorkerState, step: WorkerStep)
    requires
        state.failed,
    ensures
        !state.after(step).failed ==> (step is Produced || (step is Rewritten
            && step->Rewritten_done)),
{
}

/// Unsaved edits stay marked as such until they are in the project file.
pub proof fn edits_stay_unsaved_until_written(state: ProjectWorkerState, step: WorkerStep)
    requires
        state.dirty,
    ensures
        !state.after(step).dirty ==> (step is Produced || step is Checkpointed || (step is Rewritten
            && step->Rewritten_done)),
{
}

/// Every step of the thread is remembered: an edit that was journaled waits to be written, a
/// project that was written leaves nothing to write, and what failed pauses.
pub proof fn steps_are_remembered(
    state: ProjectWorkerState,
    revision: u64,
    fingerprint: Option<u64>,
)
    ensures
        ({
            let newest = if state.revision >= revision {
                state.revision
            } else {
                revision
            };
            let edited = state.after(WorkerStep::Applied { revision, done: true });
            let refused = state.after(WorkerStep::Applied { revision, done: false });
            let written = state.after(WorkerStep::Rewritten { revision, done: true, fingerprint });
            let unwritten = state.after(
                WorkerStep::Rewritten { revision, done: false, fingerprint },
            );
            let produced = state.after(WorkerStep::Produced { revision });
            let folded = state.after(WorkerStep::Checkpointed { fingerprint });
            let told = state.after(WorkerStep::Delivered { fingerprint });
            let reloaded = state.after(WorkerStep::Reloaded { fingerprint });
            &&& edited == (ProjectWorkerState { dirty: true, revision: newest, ..state })
            &&& refused == (ProjectWorkerState { failed: true, ..state })
            &&& written == (ProjectWorkerState {
                dirty: false,
                failed: false,
                revision: newest,
                baseline: fingerprint,
                ..state
            })
            &&& unwritten == (ProjectWorkerState { failed: true, ..state })
            &&& produced == (ProjectWorkerState {
                dirty: false,
                failed: false,
                revision: newest,
                ..state
            })
            &&& folded == (ProjectWorkerState { dirty: false, baseline: fingerprint, ..state })
            &&& told == (ProjectWorkerState { baseline: fingerprint, ..state })
            &&& reloaded == told
        }),
{
}

} // verus!
