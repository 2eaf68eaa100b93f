//! Edits on their way to the thread that owns the project on disk.
//!
//! The thread takes commands through a bounded channel. What does not fit waits here.
//! When even this line is full, the edits that follow are folded into one snapshot of
//! the project, so nothing the user did is lost.
use crate::persist::ProjectCommand;
use std::collections::VecDeque;
use vstd::prelude::*;

verus! {

/// Commands that may wait here.
pub const PROJECT_BACKLOG: usize = 256;

/// Who made a change.
#[derive(Clone, Copy, Debug, PartialEq, Eq, Structural)]
pub enum ChangeSource {
    Ui,
    Undo,
    Redo,
    Agent,
}

/// A change of the project in memory.
#[derive(Debug)]
pub struct ProjectUpdate<T> {
    pub revision: u64,
    pub source: ChangeSource,
    pub transaction: Option<T>,
}

/// A snapshot that stands for all edits up to its revision.
#[derive(Debug)]
pub struct DeferredProject<P> {
    pub revision: u64,
    pub project: P,
}

/// The line of commands, and the snapshot that follows them.
#[derive(Debug)]
pub struct ProjectBacklog<T, P> {
    pub pending: VecDeque<ProjectCommand<T, P>>,
    pub deferred: Option<DeferredProject<P>>,
}

/// The line as a mathematical value.
#[verifier::ext_equal]
pub struct BacklogModel<T, P> {
    pub pending: Seq<ProjectCommand<T, P>>,
    pub deferred: Option<DeferredProject<P>>,
}

/// The command that a deferred snapshot becomes.
pub open spec fn as_command<T, P>(deferred: DeferredProject<P>) -> ProjectCommand<T, P> {
    ProjectCommand::ReplaceSnapshot { revision: deferred.revision, project: deferred.project }
}

impl<T, P> BacklogModel<T, P> {
    /// Everything that waits, in the order in which it will be sent.
    pub open spec fn everything(self) -> Seq<ProjectCommand<T, P>> {
        match self.deferred {
            Some(deferred) => self.pending.push(as_command(deferred)),
            None => self.pending,
        }
    }

    /// How many commands leave when the channel has `room`.
    pub open spec fn leaving(self, room: nat) -> int {
        crate::pages::least(room as int, self.everything().len() as int)
    }

    /// What is left after the channel took what it has `room` for.
    pub open spec fn flushed(self, room: nat) -> Self {
        if room <= self.pending.len() {
            BacklogModel { pending: self.pending.skip(room as int), ..self }
        } else {
            BacklogModel { pending: Seq::empty(), deferred: None }
        }
    }
}

impl<T, P> View for ProjectBacklog<T, P> {
    type V = BacklogModel<T, P>;

    open spec fn view(&self) -> BacklogModel<T, P> {
        BacklogModel { pending: self.pending@, deferred: self.deferred }
    }
}

impl<T, P> ProjectBacklog<T, P> {
    /// An empty line.
    pub fn new() -> (backlog: Self)
        ensures
            backlog@ == (BacklogModel::<T, P> { pending: Seq::empty(), deferred: None }),
    {
        ProjectBacklog { pending: VecDeque::new(), deferred: None }
    }

    /// Adds a command. A full line hands it back.
    pub fn enqueue(&mut self, command: ProjectCommand<T, P>) -> (refused: Option<
        ProjectCommand<T, P>,
    >)
        ensures
            old(self)@.pending.len() >= PROJECT_BACKLOG ==> refused == Some(command),
            old(self)@.pending.len() >= PROJECT_BACKLOG ==> final(self)@ == old(self)@,
            old(self)@.pending.len() < PROJECT_BACKLOG ==> refused is None && final(self)@ == (
            BacklogModel { pending: old(self)@.pending.push(command), ..old(self)@ }),
    {
        if self.pending.len() >= PROJECT_BACKLOG {
            Some(command)
        } else {
            self.pending.push_back(command);
            None
        }
    }

    /// Lets a snapshot stand for the edits that have no place in the line. It replaces an
    /// earlier one.
    pub fn defer(&mut self, revision: u64, project: P)
        ensures
            final(self)@ == (BacklogModel {
                deferred: Some(DeferredProject { revision, project }),
                ..old(self)@
            }),
    {
        self.deferred = Some(DeferredProject { revision, project });
    }

    /// Moves to `outbox` what a channel with `room` takes: the front of the line, and the
    /// deferred snapshot once the line is empty. Returns the room that is left.
    pub fn flush(&mut self, room: usize, outbox: &mut Vec<ProjectCommand<T, P>>) -> (left: usize)
        ensures
            final(self)@ == old(self)@.flushed(room as nat),
            final(outbox)@ == old(outbox)@ + old(self)@.everything().take(
                old(self)@.leaving(room as nat),
            ),
            left == room - old(self)@.leaving(room as nat),
    {
        let ghost all = old(self)@.everything();
        let ghost before = old(self).pending@;
        let ghost sent = old(outbox)@;
        let mut left: usize = room;
        assert(before.skip(0) =~= before);
        assert(sent + before.take(0) =~= sent);
        while left > 0 && self.pending.len() > 0
            invariant
                left <= room,
                room - left <= before.len(),
                self.pending@ == before.skip(room - left),
                outbox@ == sent + before.take(room - left),
                self.deferred == old(self).deferred,
            decreases left,
        {
            let ghost gone = room - left;
            if let Some(command) = self.pending.pop_front() {
                outbox.push(command);
                left = left - 1;
                assert(before.take(gone + 1) =~= before.take(gone).push(before[gone]));
                assert(before.skip(gone + 1) =~= before.skip(gone).subrange(
                    1,
                    before.len() - gone,
                ));
                assert(outbox@ =~= sent + before.take(gone + 1));
            }
        }
        if self.pending.len() == 0 {
            assert(before.take(before.len() as int) =~= before);
            if left > 0 {
                if let Some(deferred) = self.deferred.take() {
                    outbox.push(
                        ProjectCommand::ReplaceSnapshot {
                            revision: deferred.revision,
                            project: deferred.project,
                        },
                    );
                    left = left - 1;
                }
            }
        }
        assert(outbox@ =~= sent + all.take(old(self)@.leaving(room as nat)));
        assert(self@ =~= old(self)@.flushed(room as nat));
        left
    }

    /// Hands over everything that waits, in order.
    pub fn drain(&mut self) -> (commands: Vec<ProjectCommand<T, P>>)
        ensures
            commands@ == old(self)@.everything(),
            final(self)@ == (BacklogModel::<T, P> { pending: Seq::empty(), deferred: None }),
    {
        let ghost before = self.pending@;
        let mut commands: Vec<ProjectCommand<T, P>> = Vec::new();
        assert(before.skip(0) =~= before);
        while self.pending.len() > 0
            invariant
                commands@.len() <= before.len(),
                commands@ == before.take(commands@.len() as int),
                self.pending@ == before.skip(commands@.len() as int),
                self.deferred == old(self).deferred,
            decreases self.pending.len(),
        {
            let ghost gone = commands@.len() as int;
            if let Some(command) = self.pending.pop_front() {
                commands.push(command);
                assert(before.take(gone + 1) =~= before.take(gone).push(before[gone]));
                assert(before.skip(gone + 1) =~= before.skip(gone).subrange(
                    1,
                    before.len() - gone,
                ));
            }
        }
        assert(before.take(before.len() as int) =~= before);
        assert(self.pending@ =~= Seq::empty());
        if let Some(deferred) = self.deferred.take() {
            commands.push(
                ProjectCommand::ReplaceSnapshot {
                    revision: deferred.revision,
                    project: deferred.project,
                },
            );
        }
        commands
    }
}

/// Sending loses nothing and keeps the order: what left, followed by what still waits,
/// is what waited before.
pub proof fn flushing_loses_nothing<T, P>(backlog: BacklogModel<T, P>, room: nat)
    ensures
        backlog.everything() == backlog.everything().take(backlog.leaving(room))
            + backlog.flushed(room).everything(),
{
    let left = backlog.flushed(room).everything();
    let gone = backlog.everything().take(backlog.leaving(room));
    assert(backlog.everything() =~= gone + left);
}

/// The line never grows past its bound.
pub proof fn backlog_stays_bounded<T, P>(backlog: BacklogModel<T, P>, room: nat)
    requires
        backlog.pending.len() <= PROJECT_BACKLOG,
    ensures
        backlog.flushed(room).pending.len() <= PROJECT_BACKLOG,
        backlog.everything().len() <= PROJECT_BACKLOG + 1,
{
}

} // verus!
