//! Taking edits from the project in memory to the thread that owns the project on disk.
use crate::backlog::{as_command, BacklogModel, ChangeSource, DeferredProject, ProjectUpdate};
use crate::controller::{ControllerModel, NativeController};
use crate::persist::{newer, ProjectCommand};
use crate::status::{ControllerError, Notice, Subsystem};
use crate::timeline::AudioTimeline;
use vstd::prelude::*;

verus! {

/// Where edits stand on their way to disk: in `outbox` those that the thread's channel has
/// room for, in the backlog the others.
#[verifier::ext_equal]
pub struct Transit<T, P> {
    pub backlog: BacklogModel<T, P>,
    pub latest: u64,
    pub submitted: u64,
    /// Edits no longer go out one by one; a snapshot stands for them.
    pub coalescing: bool,
    pub room: nat,
    pub outbox: Seq<ProjectCommand<T, P>>,
    /// An edit made the rendered timeline stale.
    pub stale: bool,
}

impl<T, P> Transit<T, P> {
    /// The channel takes what it has room for.
    pub open spec fn flushed(self) -> Self {
        Transit {
            backlog: self.backlog.flushed(self.room),
            room: (self.room - self.backlog.leaving(self.room)) as nat,
            outbox: self.outbox + self.backlog.everything().take(self.backlog.leaving(self.room)),
            ..self
        }
    }

    /// A snapshot stands for the edits up to `revision`.
    pub open spec fn deferring(self, revision: u64, project: P) -> Self {
        (Transit {
            backlog: BacklogModel {
                deferred: Some(DeferredProject { revision, project }),
                ..self.backlog
            },
            latest: newer(self.latest, revision),
            submitted: newer(self.submitted, revision),
            ..self
        }).flushed()
    }

    /// A command joins the line, or a snapshot takes its place where the line is full.
    pub open spec fn sending(
        self,
        command: ProjectCommand<T, P>,
        revision: u64,
        project: P,
    ) -> Self {
        if self.backlog.pending.len() >= crate::backlog::PROJECT_BACKLOG {
            Transit { coalescing: true, stale: true, ..self.deferring(revision, project) }
        } else {
            Transit {
                stale: true,
                ..(Transit {
                    backlog: BacklogModel {
                        pending: self.backlog.pending.push(command),
                        ..self.backlog
                    },
                    ..self
                }).flushed()
            }
        }
    }

    /// After one edit. Where a snapshot goes out, it is of the project as it now is.
    pub open spec fn taking(self, update: ProjectUpdate<T>, project: P) -> Self {
        let known = Transit {
            latest: newer(self.latest, update.revision),
            submitted: newer(self.submitted, update.revision),
            ..self
        };
        if self.coalescing {
            known.deferring(update.revision, project)
        } else {
            match (update.source, update.transaction) {
                (ChangeSource::Ui, Some(transaction)) => known.sending(
                    ProjectCommand::Apply { revision: update.revision, transaction },
                    update.revision,
                    project,
                ),
                (ChangeSource::Undo, None) => known.sending(
                    ProjectCommand::ReplaceSnapshot { revision: update.revision, project },
                    update.revision,
                    project,
                ),
                (ChangeSource::Redo, None) => known.sending(
                    ProjectCommand::ReplaceSnapshot { revision: update.revision, project },
                    update.revision,
                    project,
                ),
                _ => known,
            }
        }
    }

    /// After several edits.
    pub open spec fn taking_all(self, updates: Seq<ProjectUpdate<T>>, project: P) -> Self
        decreases updates.len(),
    {
        if updates.len() == 0 {
            self
        } else {
            self.taking_all(updates.drop_last(), project).taking(updates.last(), project)
        }
    }

    /// Everything on its way, in order.
    pub open spec fn in_transit(self) -> Seq<ProjectCommand<T, P>> {
        self.outbox + self.backlog.everything()
    }
}

/// Where a controller's edits stand before new ones are taken.
pub open spec fn departure<T, P>(
    controller: ControllerModel<T, P>,
    room: nat,
    outbox: Seq<ProjectCommand<T, P>>,
) -> Transit<T, P> {
    Transit {
        backlog: controller.backlog,
        latest: controller.timeline.latest_revision,
        submitted: controller.timeline.submitted_revision,
        coalescing: controller.backlog.deferred is Some,
        room,
        outbox,
        stale: false,
    }
}

/// The controller whose edits stand like this.
pub open spec fn arrived<T, P>(
    controller: ControllerModel<T, P>,
    transit: Transit<T, P>,
) -> ControllerModel<T, P> {
    ControllerModel {
        backlog: transit.backlog,
        timeline: AudioTimeline {
            latest_revision: transit.latest,
            submitted_revision: transit.submitted,
            ..controller.timeline
        },
        ..controller
    }
}

/// Whether edits were missed before these: the first of them is not the next one.
pub open spec fn has_gap<T>(submitted: u64, updates: Seq<ProjectUpdate<T>>) -> bool {
    updates.len() > 0 && updates[0].revision > crate::pages::least(
        submitted + 1,
        u64::MAX as int,
    )
}

/// Where the edits stand after they were taken.
pub open spec fn destination<T, P>(
    start: Transit<T, P>,
    updates: Seq<ProjectUpdate<T>>,
    revision: u64,
    project: P,
) -> Transit<T, P> {
    if updates.len() == 0 {
        start
    } else if has_gap(start.submitted, updates) {
        start.deferring(revision, project)
    } else {
        start.taking_all(updates, project)
    }
}

/// A copy of a project is equal to it.
pub open spec fn copies_are_equal<P: Clone>() -> bool {
    forall|project: P, copy: P| #[trigger] cloned(project, copy) ==> copy == project
}

/// What taking edits came to.
#[derive(Clone, Copy, Debug, PartialEq, Eq, Structural)]
pub struct UpdateOutcome {
    /// There were edits, so the rendered timeline is of no use any more.
    pub changed: bool,
    /// Nested compositions are to be shown as stale.
    pub stale: bool,
}

fn max_revision(a: u64, b: u64) -> (revision: u64)
    ensures
        revision == newer(a, b),
{
    if a >= b {
        a
    } else {
        b
    }
}

fn copied_project<P: Clone>(project: &P) -> (copy: P)
    requires
        copies_are_equal::<P>(),
    ensures
        copy == *project,
{
    let copy = project.clone();
    assert(cloned(*project, copy));
    copy
}

impl<T, P: Clone> NativeController<T, P> {
    /// Takes one edit.
    fn take_update(
        &mut self,
        update: ProjectUpdate<T>,
        coalescing: bool,
        project: &P,
        room: usize,
        outbox: &mut Vec<ProjectCommand<T, P>>,
    ) -> (result: (bool, bool, usize))
        requires
            copies_are_equal::<P>(),
        ensures
            ({
                let start = Transit {
                    coalescing,
                    ..departure(old(self)@, room as nat, old(outbox)@)
                };
                let end = start.taking(update, *project);
                &&& final(self)@ == arrived(old(self)@, end)
                &&& final(outbox)@ == end.outbox
                &&& result.0 == end.coalescing
                &&& result.1 == end.stale
                &&& result.2 == end.room
            }),
    {
        let ghost before = self@;
        let ghost start = Transit {
            coalescing,
            ..departure(before, room as nat, outbox@)
        };
        let revision: u64 = update.revision;
        self.timeline.latest_revision = max_revision(self.timeline.latest_revision, revision);
        self.timeline.submitted_revision = max_revision(
            self.timeline.submitted_revision,
            revision,
        );
        if coalescing {
            let left: usize = self.defer_project(revision, copied_project(project), room, outbox);
            assert(self@ =~= arrived(before, start.taking(update, *project)));
            return (true, false, left);
        }
        match (update.source, update.transaction) {
            (ChangeSource::Ui, Some(transaction)) => {
                let (refused, left) = self.enqueue_project(
                    ProjectCommand::Apply { revision, transaction },
                    room,
                    outbox,
                );
                if refused.is_some() {
                    let left: usize = self.defer_project(revision, copied_project(project), room, outbox);
                    assert(self@ =~= arrived(before, start.taking(update, *project)));
                    (true, true, left)
                } else {
                    assert(self@ =~= arrived(before, start.taking(update, *project)));
                    (false, true, left)
                }
            },
            (ChangeSource::Undo, None) => {
                let (refused, left) = self.enqueue_project(
                    ProjectCommand::ReplaceSnapshot { revision, project: copied_project(project) },
                    room,
                    outbox,
                );
                if refused.is_some() {
                    let left: usize = self.defer_project(
                        revision,
                        copied_project(project),
                        room,
                        outbox,
                    );
                    assert(self@ =~= arrived(before, start.taking(update, *project)));
                    (true, true, left)
                } else {
                    assert(self@ =~= arrived(before, start.taking(update, *project)));
                    (false, true, left)
                }
            },
            (ChangeSource::Redo, None) => {
                let (refused, left) = self.enqueue_project(
                    ProjectCommand::ReplaceSnapshot { revision, project: copied_project(project) },
                    room,
                    outbox,
                );
                if refused.is_some() {
                    let left: usize = self.defer_project(
                        revision,
                        copied_project(project),
                        room,
                        outbox,
                    );
                    assert(self@ =~= arrived(before, start.taking(update, *project)));
                    (true, true, left)
                } else {
                    assert(self@ =~= arrived(before, start.taking(update, *project)));
                    (false, true, left)
                }
            },
            _ => {
                assert(self@ =~= arrived(before, start.taking(update, *project)));
                (false, false, room)
            },
        }
    }

    /// Takes the edits that were made since the last look, with the project as it now is.
    ///
    /// Each edit goes out as it was made while there is room; after that one snapshot stands
    /// for the rest. Where edits were missed, a snapshot stands for everything. Every snapshot
    /// is of the project as it now is, whichever edit it goes out for.
    pub fn accept_updates(
        &mut self,
        updates: Vec<ProjectUpdate<T>>,
        revision: u64,
        project: P,
        room: usize,
        outbox: &mut Vec<ProjectCommand<T, P>>,
    ) -> (outcome: UpdateOutcome)
        requires
            copies_are_equal::<P>(),
        ensures
            ({
                let start = departure(old(self)@, room as nat, old(outbox)@);
                let end = destination(start, updates@, revision, project);
                &&& final(self)@ == arrived(old(self)@, end)
                &&& final(outbox)@ == end.outbox
                &&& outcome.stale == end.stale
                &&& outcome.changed == (updates@.len() > 0)
            }),
    {
        let ghost before = self@;
        let ghost start = departure(before, room as nat, outbox@);
        let ghost all = updates@;
        if updates.len() == 0 {
            assert(self@ =~= arrived(before, start));
            return UpdateOutcome { changed: false, stale: false };
        }
        if updates[0].revision > self.timeline.submitted_revision.saturating_add(1) {
            let left: usize = self.defer_project(revision, project, room, outbox);
            assert(self@ =~= arrived(before, start.deferring(revision, project)));
            return UpdateOutcome { changed: true, stale: false };
        }
        let mut rest = updates;
        let mut coalescing = self.backlog.deferred.is_some();
        let mut stale = false;
        let mut left: usize = room;
        let ghost mut done: int = 0;
        assert(all.take(0) =~= Seq::empty());
        assert(all.skip(0) =~= all);
        assert(self@ =~= arrived(before, start));
        while rest.len() > 0
            invariant
                0 <= done <= all.len(),
                copies_are_equal::<P>(),
                rest@ == all.skip(done),
                ({
                    let reached = start.taking_all(all.take(done), project);
                    &&& self@ == arrived(before, reached)
                    &&& outbox@ == reached.outbox
                    &&& coalescing == reached.coalescing
                    &&& stale == reached.stale
                    &&& left == reached.room
                }),
            decreases rest.len(),
        {
            let ghost reached = start.taking_all(all.take(done), project);
            let ghost here = self@;
            let update = rest.remove(0);
            assert(update == all[done]);
            let (still, fresh, now_left) = self.take_update(
                update,
                coalescing,
                &project,
                left,
                outbox,
            );
            proof {
                let ahead = all.take(done + 1);
                assert(ahead.drop_last() =~= all.take(done));
                assert(ahead.last() == update);
                let next = reached.taking(update, project);
                let step = (Transit {
                    coalescing,
                    ..departure(here, left as nat, reached.outbox)
                }).taking(update, project);
                assert(step.backlog == next.backlog && step.latest == next.latest
                    && step.submitted == next.submitted && step.outbox == next.outbox
                    && step.room == next.room && step.coalescing == next.coalescing);
                assert(next.stale == (reached.stale || step.stale));
                assert(self@ =~= arrived(before, next));
                assert(all.skip(done + 1) =~= all.skip(done).remove(0));
                done = done + 1;
            }
            coalescing = still;
            stale = stale || fresh;
            left = now_left;
        }
        assert(all.take(all.len() as int) =~= all);
        UpdateOutcome { changed: true, stale }
    }
}

impl<T, P> NativeController<T, P> {
    /// Hands `outbox` what the thread's channel, with room for `room` commands, takes of the
    /// backlog. Returns the room that is left.
    pub fn flush_project(
        &mut self,
        room: usize,
        outbox: &mut Vec<ProjectCommand<T, P>>,
    ) -> (left: usize)
        ensures
            final(self)@ == (ControllerModel {
                backlog: old(self)@.backlog.flushed(room as nat),
                ..old(self)@
            }),
            final(outbox)@ == old(outbox)@ + old(self)@.backlog.everything().take(
                old(self)@.backlog.leaving(room as nat),
            ),
            left == room - old(self)@.backlog.leaving(room as nat),
    {
        let left: usize = self.backlog.flush(room, outbox);
        assert(self@ =~= (ControllerModel {
            backlog: old(self)@.backlog.flushed(room as nat),
            ..old(self)@
        }));
        left
    }

    /// Lets a snapshot stand for the edits up to `revision`, and hands out what there is room
    /// for.
    fn defer_project(
        &mut self,
        revision: u64,
        project: P,
        room: usize,
        outbox: &mut Vec<ProjectCommand<T, P>>,
    ) -> (left: usize)
        ensures
            ({
                let start = Transit {
                    coalescing: false,
                    ..departure(old(self)@, room as nat, old(outbox)@)
                };
                let end = start.deferring(revision, project);
                &&& final(self)@ == arrived(old(self)@, end)
                &&& final(outbox)@ == end.outbox
                &&& left == end.room
            }),
    {
        self.timeline.latest_revision = max_revision(self.timeline.latest_revision, revision);
        self.timeline.submitted_revision = max_revision(
            self.timeline.submitted_revision,
            revision,
        );
        self.backlog.defer(revision, project);
        let left: usize = self.flush_project(room, outbox);
        assert(self@ =~= arrived(
            old(self)@,
            (Transit {
                coalescing: false,
                ..departure(old(self)@, room as nat, old(outbox)@)
            }).deferring(revision, project),
        ));
        left
    }

    /// Lets a command join the line, and hands out what there is room for. A full line hands
    /// the command back.
    pub fn enqueue_project(
        &mut self,
        command: ProjectCommand<T, P>,
        room: usize,
        outbox: &mut Vec<ProjectCommand<T, P>>,
    ) -> (result: (Option<ProjectCommand<T, P>>, usize))
        ensures
            ({
                let full = old(self)@.backlog.pending.len() >= crate::backlog::PROJECT_BACKLOG;
                let grown = BacklogModel {
                    pending: old(self)@.backlog.pending.push(command),
                    ..old(self)@.backlog
                };
                if full {
                    &&& result.0 == Some(command)
                    &&& result.1 == room
                    &&& final(self)@ == old(self)@
                    &&& final(outbox)@ == old(outbox)@
                } else {
                    &&& result.0 is None
                    &&& result.1 == room - grown.leaving(room as nat)
                    &&& final(self)@ == (ControllerModel {
                        backlog: grown.flushed(room as nat),
                        ..old(self)@
                    })
                    &&& final(outbox)@ == old(outbox)@ + grown.everything().take(
                        grown.leaving(room as nat),
                    )
                }
            }),
    {
        match self.backlog.enqueue(command) {
            Some(command) => {
                assert(self@ =~= old(self)@);
                (Some(command), room)
            },
            None => {
                let left: usize = self.flush_project(room, outbox);
                (None, left)
            },
        }
    }

    /// Saves at the user's word: the project goes the way of the edits before it.
    pub fn save(
        &mut self,
        revision: u64,
        project: P,
        room: usize,
        outbox: &mut Vec<ProjectCommand<T, P>>,
    ) -> (accepted: bool)
        ensures
            accepted == (old(self)@.backlog.pending.len() < crate::backlog::PROJECT_BACKLOG),
            !accepted ==> final(self)@ == old(self)@.raising(
                Subsystem::Persistence,
                "bounded save backlog is full"@,
            ) && final(outbox)@ == old(outbox)@,
            accepted ==> ({
                let grown = BacklogModel {
                    pending: old(self)@.backlog.pending.push(
                        ProjectCommand::Save { revision, project },
                    ),
                    ..old(self)@.backlog
                };
                &&& final(self)@ == (ControllerModel {
                    backlog: grown.flushed(room as nat),
                    ..old(self)@
                })
                &&& final(outbox)@ == old(outbox)@ + grown.everything().take(
                    grown.leaving(room as nat),
                )
            }),
    {
        let (refused, _left) = self.enqueue_project(
            ProjectCommand::Save { revision, project },
            room,
            outbox,
        );
        if refused.is_some() {
            self.record_error(
                ControllerError::new(Subsystem::Persistence, "bounded save backlog is full"),
            );
            false
        } else {
            true
        }
    }

    /// The revision that an import will have.
    pub fn import_revision(&self) -> (revision: u64)
        ensures
            revision == crate::pages::least(
                self@.timeline.latest_revision + 1,
                u64::MAX as int,
            ),
    {
        self.timeline.latest_revision.saturating_add(1)
    }

    /// Notes whether the thread took an import.
    pub fn import_sent(&mut self, name: String, taken: bool)
        ensures
            final(self)@ == (if taken {
                old(self)@.noting(Notice::Importing(name))
            } else {
                old(self)@.raising(Subsystem::AssetImport, "bounded project queue is full"@)
            }),
    {
        if taken {
            self.notify(Notice::Importing(name));
        } else {
            self.record_error(
                ControllerError::new(Subsystem::AssetImport, "bounded project queue is full"),
            );
        }
    }

    /// Notes whether the thread took a split into `count` regions.
    pub fn split_sent(&mut self, count: u64, taken: bool)
        ensures
            final(self)@ == (if taken {
                old(self)@.noting(Notice::CreatingRegions(count))
            } else {
                old(self)@.raising(
                    Subsystem::TempoRegionSplit,
                    "bounded project queue is full"@,
                )
            }),
    {
        if taken {
            self.notify(Notice::CreatingRegions(count));
        } else {
            self.record_error(
                ControllerError::new(
                    Subsystem::TempoRegionSplit,
                    "bounded project queue is full",
                ),
            );
        }
    }

    /// Hands over everything that is on its way to disk, before the thread is closed. A
    /// controller that was closed before has nothing to hand over.
    pub fn begin_close(&mut self) -> (commands: Vec<ProjectCommand<T, P>>)
        ensures
            old(self)@.closed ==> commands@ == Seq::<ProjectCommand<T, P>>::empty() && final(self)@
                == old(self)@,
            !old(self)@.closed ==> commands@ == old(self)@.backlog.everything() && final(self)@
                == (ControllerModel {
                backlog: BacklogModel { pending: Seq::empty(), deferred: None },
                closed: true,
                ..old(self)@
            }),
    {
        if self.closed {
            assert(self@ =~= old(self)@);
            return Vec::new();
        }
        let commands = self.backlog.drain();
        self.closed = true;
        assert(self@ =~= (ControllerModel {
            backlog: BacklogModel { pending: Seq::empty(), deferred: None },
            closed: true,
            ..old(self)@
        }));
        commands
    }
}

/// Whether a command brings an edit to disk: it is the edit, or a later whole project.
pub open spec fn carries<T, P>(command: ProjectCommand<T, P>, revision: u64) -> bool {
    match command {
        ProjectCommand::Apply { revision: carried, .. } => carried == revision,
        ProjectCommand::ReplaceSnapshot { revision: carried, .. } => carried >= revision,
        _ => false,
    }
}

/// Whether an edit is on its way to disk.
pub open spec fn under_way<T, P>(commands: Seq<ProjectCommand<T, P>>, revision: u64) -> bool {
    exists|i: int| 0 <= i < commands.len() && carries(#[trigger] commands[i], revision)
}

/// Whether an edit is one that the disk must see.
pub open spec fn is_edit<T>(update: ProjectUpdate<T>) -> bool {
    match (update.source, update.transaction) {
        (ChangeSource::Ui, Some(_)) => true,
        (ChangeSource::Undo, None) => true,
        (ChangeSource::Redo, None) => true,
        _ => false,
    }
}

proof fn lemma_flushed_in_transit<T, P>(transit: Transit<T, P>)
    ensures
        transit.flushed().in_transit() == transit.in_transit(),
{
    crate::backlog::flushing_loses_nothing(transit.backlog, transit.room);
    assert(transit.flushed().in_transit() =~= transit.in_transit());
}

/// The snapshot that waits, if any, is no newer than `revision`.
pub open spec fn deferred_before<T, P>(transit: Transit<T, P>, revision: u64) -> bool {
    transit.backlog.deferred is Some ==> transit.backlog.deferred->0.revision <= revision
}

proof fn lemma_deferring_carries<T, P>(
    transit: Transit<T, P>,
    revision: u64,
    project: P,
    earlier: u64,
)
    requires
        deferred_before(transit, revision),
        under_way(transit.in_transit(), earlier) || earlier == revision,
    ensures
        under_way(transit.deferring(revision, project).in_transit(), earlier),
        deferred_before(transit.deferring(revision, project), revision),
{
    let placed = Transit {
        backlog: BacklogModel {
            deferred: Some(DeferredProject { revision, project }),
            ..transit.backlog
        },
        latest: newer(transit.latest, revision),
        submitted: newer(transit.submitted, revision),
        ..transit
    };
    lemma_flushed_in_transit(placed);
    let before = transit.in_transit();
    let after = placed.in_transit();
    let last = transit.outbox.len() + transit.backlog.pending.len();
    assert(after[last as int] == as_command::<T, P>(DeferredProject { revision, project }));
    if earlier == revision {
        assert(carries(after[last as int], earlier));
    } else {
        let i = choose|i: int| 0 <= i < before.len() && carries(#[trigger] before[i], earlier);
        if i < last {
            assert(after[i] == before[i]);
        } else {
            assert(before[i] == as_command::<T, P>(transit.backlog.deferred->0));
            assert(carries(after[last as int], earlier));
        }
    }
}

proof fn lemma_sending_carries<T, P>(
    transit: Transit<T, P>,
    command: ProjectCommand<T, P>,
    revision: u64,
    project: P,
    earlier: u64,
)
    requires
        transit.backlog.deferred is None,
        carries(command, revision),
        under_way(transit.in_transit(), earlier) || earlier == revision,
    ensures
        under_way(transit.sending(command, revision, project).in_transit(), earlier),
        deferred_before(transit.sending(command, revision, project), revision),
        transit.sending(command, revision, project).backlog.deferred is Some
            ==> transit.sending(command, revision, project).coalescing,
{
    if transit.backlog.pending.len() >= crate::backlog::PROJECT_BACKLOG {
        lemma_deferring_carries(transit, revision, project, earlier);
        let deferred = transit.deferring(revision, project);
        assert(transit.sending(command, revision, project).in_transit()
            =~= deferred.in_transit());
    } else {
        let grown = Transit {
            backlog: BacklogModel {
                pending: transit.backlog.pending.push(command),
                ..transit.backlog
            },
            ..transit
        };
        lemma_flushed_in_transit(grown);
        let before = transit.in_transit();
        let after = grown.in_transit();
        assert(after =~= before.push(command));
        if earlier == revision {
            assert(carries(after[before.len() as int], earlier));
        } else {
            let i = choose|i: int| 0 <= i < before.len() && carries(#[trigger] before[i], earlier);
            assert(after[i] == before[i]);
        }
        assert(transit.sending(command, revision, project).in_transit()
            =~= grown.flushed().in_transit());
    }
}

proof fn lemma_taking_carries<T, P>(
    transit: Transit<T, P>,
    update: ProjectUpdate<T>,
    project: P,
    earlier: u64,
)
    requires
        transit.backlog.deferred is Some ==> transit.coalescing,
        deferred_before(transit, update.revision),
        under_way(transit.in_transit(), earlier) || (earlier == update.revision && is_edit(
            update,
        )),
    ensures
        under_way(transit.taking(update, project).in_transit(), earlier),
        transit.taking(update, project).backlog.deferred is Some ==> transit.taking(update, project).coalescing,
        deferred_before(transit.taking(update, project), update.revision),
{
    let known = Transit {
        latest: newer(transit.latest, update.revision),
        submitted: newer(transit.submitted, update.revision),
        ..transit
    };
    assert(known.in_transit() =~= transit.in_transit());
    if transit.coalescing {
        lemma_deferring_carries(known, update.revision, project, earlier);
    } else {
        match (update.source, update.transaction) {
            (ChangeSource::Ui, Some(transaction)) => lemma_sending_carries(
                known,
                ProjectCommand::Apply { revision: update.revision, transaction },
                update.revision,
                project,
                earlier,
            ),
            (ChangeSource::Undo, None) => lemma_sending_carries(
                known,
                ProjectCommand::ReplaceSnapshot { revision: update.revision, project },
                update.revision,
                project,
                earlier,
            ),
            (ChangeSource::Redo, None) => lemma_sending_carries(
                known,
                ProjectCommand::ReplaceSnapshot { revision: update.revision, project },
                update.revision,
                project,
                earlier,
            ),
            _ => {},
        }
    }
}

proof fn lemma_taking_all_carries<T, P>(
    transit: Transit<T, P>,
    updates: Seq<ProjectUpdate<T>>,
    project: P,
    place: int,
)
    requires
        transit.backlog.deferred is Some ==> transit.coalescing,
        forall|i: int, j: int|
            0 <= i <= j < updates.len() ==> updates[i].revision <= updates[j].revision,
        updates.len() > 0 ==> deferred_before(transit, updates[0].revision),
        0 <= place < updates.len(),
        is_edit(updates[place]),
    ensures
        under_way(transit.taking_all(updates, project).in_transit(), updates[place].revision),
        transit.taking_all(updates, project).backlog.deferred is Some ==> transit.taking_all(
            updates,
            project,
        ).coalescing,
        deferred_before(transit.taking_all(updates, project), updates.last().revision),
    decreases updates.len(),
{
    let rest = updates.drop_last();
    let reached = transit.taking_all(rest, project);
    if rest.len() > 0 {
        lemma_deferral_is_coalescing(transit, rest, project);
        assert(deferred_before(reached, rest.last().revision));
        if place < rest.len() {
            lemma_taking_all_carries(transit, rest, project, place);
        }
    } else {
        assert(reached == transit);
    }
    lemma_taking_carries(reached, updates.last(), project, updates[place].revision);
}

proof fn lemma_deferral_is_coalescing<T, P>(
    transit: Transit<T, P>,
    updates: Seq<ProjectUpdate<T>>,
    project: P,
)
    requires
        transit.backlog.deferred is Some ==> transit.coalescing,
        forall|i: int, j: int|
            0 <= i <= j < updates.len() ==> updates[i].revision <= updates[j].revision,
        updates.len() > 0 ==> deferred_before(transit, updates[0].revision),
    ensures
        transit.taking_all(updates, project).backlog.deferred is Some ==> transit.taking_all(
            updates,
            project,
        ).coalescing,
        updates.len() > 0 ==> deferred_before(
            transit.taking_all(updates, project),
            updates.last().revision,
        ),
    decreases updates.len(),
{
    if updates.len() > 0 {
        lemma_deferral_is_coalescing(transit, updates.drop_last(), project);
    }
}

/// No edit is lost on its way to disk: after edits were taken in the order of their
/// revisions, each of them is on its way, by itself or inside a snapshot at least as new,
/// however little room there is.
pub proof fn every_edit_is_under_way<T, P>(
    controller: ControllerModel<T, P>,
    room: nat,
    outbox: Seq<ProjectCommand<T, P>>,
    updates: Seq<ProjectUpdate<T>>,
    revision: u64,
    project: P,
    place: int,
)
    requires
        forall|i: int, j: int|
            0 <= i <= j < updates.len() ==> updates[i].revision <= updates[j].revision,
        0 <= place < updates.len(),
        is_edit(updates[place]),
        updates.last().revision <= revision,
        controller.backlog.deferred is Some ==> controller.backlog.deferred->0.revision
            <= updates[0].revision,
    ensures
        under_way(
            destination(
                departure(controller, room, outbox),
                updates,
                revision,
                project,
            ).in_transit(),
            updates[place].revision,
        ),
{
    let start = departure(controller, room, outbox);
    if has_gap(start.submitted, updates) {
        let placed = Transit {
            backlog: BacklogModel {
                deferred: Some(DeferredProject { revision, project }),
                ..start.backlog
            },
            latest: newer(start.latest, revision),
            submitted: newer(start.submitted, revision),
            ..start
        };
        lemma_flushed_in_transit(placed);
        let last = start.outbox.len() + start.backlog.pending.len();
        assert(placed.in_transit()[last as int] == as_command::<T, P>(
            DeferredProject { revision, project },
        ));
        assert(carries(placed.in_transit()[last as int], updates[place].revision));
    } else {
        lemma_taking_all_carries(start, updates, project, place);
    }
}

/// Whether each snapshot among commands is of this project, or was among those before.
pub open spec fn up_to_date<T, P>(
    commands: Seq<ProjectCommand<T, P>>,
    before: Seq<ProjectCommand<T, P>>,
    project: P,
) -> bool {
    forall|i: int|
        0 <= i < commands.len() ==> (#[trigger] commands[i] matches ProjectCommand::ReplaceSnapshot {
            project: shown,
            ..
        } ==> shown == project || before.contains(commands[i]))
}

proof fn lemma_deferring_shows<T, P>(
    transit: Transit<T, P>,
    before: Seq<ProjectCommand<T, P>>,
    revision: u64,
    project: P,
)
    requires
        up_to_date(transit.in_transit(), before, project),
    ensures
        up_to_date(transit.deferring(revision, project).in_transit(), before, project),
{
    let placed = Transit {
        backlog: BacklogModel {
            deferred: Some(DeferredProject { revision, project }),
            ..transit.backlog
        },
        latest: newer(transit.latest, revision),
        submitted: newer(transit.submitted, revision),
        ..transit
    };
    lemma_flushed_in_transit(placed);
    let earlier = transit.in_transit();
    let after = placed.in_transit();
    let last = transit.outbox.len() + transit.backlog.pending.len();
    assert forall|i: int| 0 <= i < after.len() implies (
    #[trigger] after[i] matches ProjectCommand::ReplaceSnapshot { project: shown, .. } ==> shown
        == project || before.contains(after[i])) by {
        if i < last {
            assert(after[i] == earlier[i]);
        }
    }
}

proof fn lemma_sending_shows<T, P>(
    transit: Transit<T, P>,
    before: Seq<ProjectCommand<T, P>>,
    command: ProjectCommand<T, P>,
    revision: u64,
    project: P,
)
    requires
        up_to_date(transit.in_transit(), before, project),
        transit.backlog.deferred is None,
        command matches ProjectCommand::ReplaceSnapshot { project: shown, .. } ==> shown == project,
    ensures
        up_to_date(transit.sending(command, revision, project).in_transit(), before, project),
{
    let after = transit.sending(command, revision, project);
    if transit.backlog.pending.len() >= crate::backlog::PROJECT_BACKLOG {
        lemma_deferring_shows(transit, before, revision, project);
        assert(after.in_transit() =~= transit.deferring(revision, project).in_transit());
    } else {
        let grown = Transit {
            backlog: BacklogModel {
                pending: transit.backlog.pending.push(command),
                ..transit.backlog
            },
            ..transit
        };
        lemma_flushed_in_transit(grown);
        assert(grown.in_transit() =~= transit.in_transit().push(command));
        assert(after.in_transit() =~= grown.flushed().in_transit());
    }
}

proof fn lemma_taking_all_shows<T, P>(
    transit: Transit<T, P>,
    updates: Seq<ProjectUpdate<T>>,
    project: P,
)
    requires
        transit.backlog.deferred is Some ==> transit.coalescing,
    ensures
        ({
            let after = transit.taking_all(updates, project);
            &&& up_to_date(after.in_transit(), transit.in_transit(), project)
            &&& after.backlog.deferred is Some ==> after.coalescing
        }),
    decreases updates.len(),
{
    let before = transit.in_transit();
    if updates.len() == 0 {
        assert forall|i: int| 0 <= i < before.len() implies before.contains(#[trigger] before[i]) by {
        }
    } else {
        lemma_taking_all_shows(transit, updates.drop_last(), project);
        let reached = transit.taking_all(updates.drop_last(), project);
        let update = updates.last();
        let known = Transit {
            latest: newer(reached.latest, update.revision),
            submitted: newer(reached.submitted, update.revision),
            ..reached
        };
        assert(known.in_transit() =~= reached.in_transit());
        if reached.coalescing {
            lemma_deferring_shows(known, before, update.revision, project);
        } else {
            let snapshot = ProjectCommand::<T, P>::ReplaceSnapshot {
                revision: update.revision,
                project,
            };
            match (update.source, update.transaction) {
                (ChangeSource::Ui, Some(transaction)) => lemma_sending_shows(
                    known,
                    before,
                    ProjectCommand::Apply { revision: update.revision, transaction },
                    update.revision,
                    project,
                ),
                (ChangeSource::Undo, None) => lemma_sending_shows(
                    known,
                    before,
                    snapshot,
                    update.revision,
                    project,
                ),
                (ChangeSource::Redo, None) => lemma_sending_shows(
                    known,
                    before,
                    snapshot,
                    update.revision,
                    project,
                ),
                _ => {},
            }
        }
    }
}

/// A snapshot never shows an older project: whichever of the edits it goes out for, what is on
/// its way after a look is of the project as it then is, or was on its way before.
pub proof fn snapshots_show_the_present<T, P>(
    controller: ControllerModel<T, P>,
    room: nat,
    outbox: Seq<ProjectCommand<T, P>>,
    updates: Seq<ProjectUpdate<T>>,
    revision: u64,
    project: P,
)
    ensures
        up_to_date(
            destination(
                departure(controller, room, outbox),
                updates,
                revision,
                project,
            ).in_transit(),
            departure(controller, room, outbox).in_transit(),
            project,
        ),
{
    let start = departure(controller, room, outbox);
    lemma_taking_all_shows(start, Seq::empty(), project);
    if updates.len() > 0 {
        if has_gap(start.submitted, updates) {
            lemma_deferring_shows(start, start.in_transit(), revision, project);
        } else {
            lemma_taking_all_shows(start, updates, project);
        }
    }
}

/// Revisions only grow as edits are taken.
pub proof fn taking_edits_never_lowers_revisions<T, P>(
    transit: Transit<T, P>,
    update: ProjectUpdate<T>,
    project: P,
)
    ensures
        transit.taking(update, project).latest >= transit.latest,
        transit.taking(update, project).latest >= update.revision,
        transit.taking(update, project).submitted >= transit.submitted,
{
}

/// What the thread can take goes out at once, oldest first, and the rest waits; nothing is lost
/// or doubled on the way.
pub proof fn flushing_sends_the_oldest_first<T, P>(transit: Transit<T, P>)
    ensures
        ({
            let after = transit.flushed();
            let waiting = transit.backlog.everything();
            let sent = if transit.room <= waiting.len() {
                transit.room as int
            } else {
                waiting.len() as int
            };
            &&& after.in_transit() == transit.in_transit()
            &&& after.outbox == transit.outbox + waiting.take(sent)
            &&& after.backlog.everything() == waiting.skip(sent)
            &&& after.room == transit.room - sent
            &&& after.latest == transit.latest && after.submitted == transit.submitted
                && after.coalescing == transit.coalescing && after.stale == transit.stale
        }),
{
    lemma_flushed_in_transit(transit);
    let after = transit.flushed();
    let waiting = transit.backlog.everything();
    let sent = if transit.room <= waiting.len() {
        transit.room as int
    } else {
        waiting.len() as int
    };
    assert(after.backlog.everything() =~= waiting.skip(sent));
    assert(after.in_transit() =~= transit.in_transit());
}

/// A whole project takes the place of one that waits, stands behind every edit, and counts as the
/// newest.
pub proof fn deferred_projects_stand_behind_every_edit<T, P>(
    transit: Transit<T, P>,
    revision: u64,
    project: P,
)
    requires
        transit.room == 0,
    ensures
        ({
            let after = transit.deferring(revision, project);
            &&& after.backlog.pending == transit.backlog.pending
            &&& after.backlog.deferred == Some(DeferredProject { revision, project })
            &&& after.backlog.everything().last() == (ProjectCommand::<T, P>::ReplaceSnapshot {
                revision,
                project,
            })
            &&& after.outbox == transit.outbox
            &&& after.latest >= revision && after.latest >= transit.latest
            &&& after.submitted >= revision && after.submitted >= transit.submitted
            &&& after.latest == revision || after.latest == transit.latest
        }),
{
    let after = transit.deferring(revision, project);
    assert(after.backlog.pending =~= transit.backlog.pending);
    assert(after.outbox =~= transit.outbox);
}

/// An edit of the user goes out as it is, one that was undone or redone as the whole project; the
/// rendered arrangement is stale after each. Whatever came from elsewhere is only counted.
pub proof fn edits_go_out_as_what_they_are<T, P>(
    transit: Transit<T, P>,
    revision: u64,
    transaction: T,
    project: P,
)
    requires
        transit.room == 0,
        !transit.coalescing,
        transit.backlog.deferred is None,
        transit.backlog.pending.len() < 256,
    ensures
        ({
            let edit = transit.taking(
                ProjectUpdate {
                    revision,
                    source: ChangeSource::Ui,
                    transaction: Some(transaction),
                },
                project,
            );
            let undone = transit.taking(
                ProjectUpdate { revision, source: ChangeSource::Undo, transaction: None },
                project,
            );
            let redone = transit.taking(
                ProjectUpdate { revision, source: ChangeSource::Redo, transaction: None },
                project,
            );
            let agent = transit.taking(
                ProjectUpdate {
                    revision,
                    source: ChangeSource::Agent,
                    transaction: Some(transaction),
                },
                project,
            );
            &&& edit.backlog.pending == transit.backlog.pending.push(
                ProjectCommand::Apply { revision, transaction },
            )
            &&& undone.backlog.pending == transit.backlog.pending.push(
                ProjectCommand::ReplaceSnapshot { revision, project },
            )
            &&& redone.backlog.pending == undone.backlog.pending
            &&& agent.backlog == transit.backlog
            &&& edit.stale && undone.stale && redone.stale && agent.stale == transit.stale
            &&& edit.latest == agent.latest && agent.latest >= revision
            &&& edit.submitted >= revision && agent.submitted >= revision
            &&& !edit.coalescing && edit.backlog.deferred is None
        }),
{
    let command = ProjectCommand::<T, P>::Apply { revision, transaction };
    let whole = ProjectCommand::<T, P>::ReplaceSnapshot { revision, project };
    assert(transit.backlog.pending.push(command).skip(0) =~= transit.backlog.pending.push(command));
    assert(transit.backlog.pending.push(whole).skip(0) =~= transit.backlog.pending.push(whole));
}

/// A backlog that is full takes no more edits: the whole project stands for them, and for all
/// that follow.
pub proof fn full_backlogs_send_the_whole_project<T, P>(
    transit: Transit<T, P>,
    revision: u64,
    transaction: T,
    project: P,
)
    requires
        transit.room == 0,
        !transit.coalescing,
        transit.backlog.pending.len() >= 256,
    ensures
        ({
            let after = transit.taking(
                ProjectUpdate {
                    revision,
                    source: ChangeSource::Ui,
                    transaction: Some(transaction),
                },
                project,
            );
            &&& after.backlog.pending == transit.backlog.pending
            &&& after.backlog.deferred == Some(DeferredProject { revision, project })
            &&& after.coalescing && after.stale
        }),
{
    let after = transit.taking(
        ProjectUpdate { revision, source: ChangeSource::Ui, transaction: Some(transaction) },
        project,
    );
    assert(after.backlog.pending =~= transit.backlog.pending);
}

/// Edits are missing exactly if the first that arrives does not follow the last that was sent.
pub proof fn gaps_are_seen<T>(submitted: u64, updates: Seq<ProjectUpdate<T>>)
    requires
        submitted < u64::MAX,
    ensures
        updates.len() == 0 ==> !has_gap(submitted, updates),
        updates.len() > 0 ==> (has_gap(submitted, updates) <==> updates[0].revision - submitted > 1),
{
}

/// What was under way arrives in the shell: its backlog and its revisions, and nothing else.
pub proof fn only_backlog_and_revisions_arrive<T, P>(
    controller: ControllerModel<T, P>,
    transit: Transit<T, P>,
    room: nat,
    outbox: Seq<ProjectCommand<T, P>>,
)
    ensures
        ({
            let after = arrived(controller, transit);
            let start = departure(controller, room, outbox);
            &&& after.backlog == transit.backlog
            &&& after.timeline.latest_revision == transit.latest
            &&& after.timeline.submitted_revision == transit.submitted
            &&& after.timeline.resident_window == controller.timeline.resident_window
                && after.timeline.requested_window == controller.timeline.requested_window
            &&& after.line == controller.line && after.status == controller.status
                && after.preview == controller.preview && after.closed == controller.closed
            &&& start.backlog == controller.backlog && start.room == room && start.outbox == outbox
            &&& start.latest == controller.timeline.latest_revision && start.submitted
                == controller.timeline.submitted_revision
            &&& start.coalescing <==> controller.backlog.deferred is Some
            &&& !start.stale
        }),
{
}

/// Edits are taken in turn; where some are missing, the whole project goes out in their place.
pub proof fn edits_are_taken_in_turn<T, P>(
    start: Transit<T, P>,
    updates: Seq<ProjectUpdate<T>>,
    update: ProjectUpdate<T>,
    revision: u64,
    project: P,
)
    ensures
        destination(start, Seq::empty(), revision, project) == start,
        start.taking_all(Seq::empty(), project) == start,
        start.taking_all(updates.push(update), project) == start.taking_all(
            updates,
            project,
        ).taking(update, project),
        updates.len() > 0 && updates[0].revision > start.submitted + 1 ==> destination(
            start,
            updates,
            revision,
            project,
        ) == start.deferring(revision, project),
        updates.len() > 0 && updates[0].revision <= start.submitted + 1 ==> destination(
            start,
            updates,
            revision,
            project,
        ) == start.taking_all(updates, project),
{
    assert(updates.push(update).drop_last() =~= updates);
}

} // verus!
