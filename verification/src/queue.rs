//! Commands on their way to the audio callback.
//!
//! The callback takes commands through a bounded queue of its own. What does not fit
//! waits here, and this waiting line is bounded as well.
use std::collections::VecDeque;
use vstd::prelude::*;

verus! {

/// Commands that may wait, not counting the two that are never refused.
pub const AUDIO_BACKLOG: usize = 128;

/// A rendered timeline or decoded file, as the shell refers to it.
#[derive(Clone, Copy, Debug, PartialEq, Eq, Structural)]
pub struct Snapshot {
    pub id: u64,
    pub sample_rate: u32,
    pub total_frames: u64,
}

/// Frames that playback repeats.
#[derive(Clone, Copy, Debug, PartialEq, Eq, Structural)]
pub struct LoopRange {
    pub start_frame: u64,
    pub end_frame: u64,
}

/// The metronome. The tempo is carried as the bits of its number of beats per minute.
#[derive(Clone, Copy, Debug, PartialEq, Eq, Structural)]
pub struct Metronome {
    pub enabled: bool,
    pub tempo_bits: u64,
    pub numerator: u8,
    pub denominator: u8,
}

/// A command to the audio callback.
#[derive(Clone, Copy, Debug, PartialEq, Eq, Structural)]
pub enum RealtimeCommand {
    InstallSnapshot(Snapshot),
    ClearSnapshot,
    Play,
    Pause,
    Stop,
    Seek(u64),
    SetLoop(Option<LoopRange>),
    SetMetronome(Metronome),
    /// The sampler prepared under this generation, or none.
    InstallLiveSampler(Option<u64>),
    LiveNoteOn { note: u8, velocity: u8 },
    /// A note off the tempered scale by a number of sevenths of a semitone.
    LiveNoteOnTuned { note: u8, velocity: u8, sevenths: i8 },
    LiveNoteOff { note: u8 },
    LiveAllNotesOff,
}

/// Whether a command installs a timeline.
pub open spec fn installs_snapshot(command: RealtimeCommand) -> bool {
    command is InstallSnapshot
}

/// Whether a command installs a sampler.
pub open spec fn installs_sampler(command: RealtimeCommand) -> bool {
    command is InstallLiveSampler
}

/// Whether a command starts or ends notes that are played live.
pub open spec fn plays_live(command: RealtimeCommand) -> bool {
    command is LiveNoteOn || command is LiveNoteOnTuned || command is LiveNoteOff
        || command is LiveAllNotesOff
}

/// Whether a command concerns the live keyboard.
pub open spec fn concerns_keyboard(command: RealtimeCommand) -> bool {
    installs_sampler(command) || plays_live(command)
}

/// Whether a command concerns the live keyboard.
pub fn is_keyboard_command(command: &RealtimeCommand) -> (keyboard: bool)
    ensures
        keyboard == concerns_keyboard(*command),
{
    matches!(
        command,
        RealtimeCommand::InstallLiveSampler(_) | RealtimeCommand::LiveNoteOn { .. }
            | RealtimeCommand::LiveNoteOnTuned { .. } | RealtimeCommand::LiveNoteOff { .. }
            | RealtimeCommand::LiveAllNotesOff
    )
}

/// What to take out of the line.
#[derive(Clone, Copy, Debug, PartialEq, Eq, Structural)]
pub enum Withdrawal {
    Snapshots,
    Samplers,
    LiveNotes,
    Keyboard,
}

impl Withdrawal {
    /// Whether a command is taken out.
    pub open spec fn takes(self, command: RealtimeCommand) -> bool {
        match self {
            Withdrawal::Snapshots => installs_snapshot(command),
            Withdrawal::Samplers => installs_sampler(command),
            Withdrawal::LiveNotes => plays_live(command),
            Withdrawal::Keyboard => concerns_keyboard(command),
        }
    }

    fn matches(self, command: &RealtimeCommand) -> (taken: bool)
        ensures
            taken == self.takes(*command),
    {
        match self {
            Withdrawal::Snapshots => matches!(command, RealtimeCommand::InstallSnapshot(_)),
            Withdrawal::Samplers => matches!(command, RealtimeCommand::InstallLiveSampler(_)),
            Withdrawal::LiveNotes => is_keyboard_command(command) && !matches!(
                command,
                RealtimeCommand::InstallLiveSampler(_)
            ),
            Withdrawal::Keyboard => is_keyboard_command(command),
        }
    }
}

/// The line without the commands that a withdrawal takes.
pub open spec fn withdrawn(line: Seq<RealtimeCommand>, what: Withdrawal) -> Seq<RealtimeCommand> {
    line.filter(|command: RealtimeCommand| !what.takes(command))
}

/// The place of the last command that installs a timeline, or -1.
pub open spec fn last_install(line: Seq<RealtimeCommand>) -> int
    decreases line.len(),
{
    if line.len() == 0 {
        -1
    } else if installs_snapshot(line.last()) {
        line.len() - 1
    } else {
        last_install(line.drop_last())
    }
}

/// The line in which a command finds its place: a command that installs a timeline
/// replaces the last such command.
pub open spec fn making_room(
    line: Seq<RealtimeCommand>,
    command: RealtimeCommand,
) -> Seq<RealtimeCommand> {
    if installs_snapshot(command) && last_install(line) >= 0 {
        line.remove(last_install(line))
    } else {
        line
    }
}

/// Whether a command is refused for want of room.
pub open spec fn refused(line: Seq<RealtimeCommand>, command: RealtimeCommand) -> bool {
    making_room(line, command).len() >= AUDIO_BACKLOG
}

/// The line after a command joined it, or was refused.
pub open spec fn enqueued(
    line: Seq<RealtimeCommand>,
    command: RealtimeCommand,
) -> Seq<RealtimeCommand> {
    if refused(line, command) {
        making_room(line, command)
    } else {
        making_room(line, command).push(command)
    }
}

/// The line after several commands joined it in order.
pub open spec fn enqueued_all(
    line: Seq<RealtimeCommand>,
    commands: Seq<RealtimeCommand>,
) -> Seq<RealtimeCommand>
    decreases commands.len(),
{
    if commands.len() == 0 {
        line
    } else {
        enqueued(enqueued_all(line, commands.drop_last()), commands.last())
    }
}

/// Whether one of several commands is refused.
pub open spec fn any_refused(line: Seq<RealtimeCommand>, commands: Seq<RealtimeCommand>) -> bool
    decreases commands.len(),
{
    commands.len() > 0 && (any_refused(line, commands.drop_last()) || refused(
        enqueued_all(line, commands.drop_last()),
        commands.last(),
    ))
}

/// The number of commands in a line that satisfy a predicate.
pub open spec fn tally(line: Seq<RealtimeCommand>, wanted: spec_fn(RealtimeCommand) -> bool) -> nat
    decreases line.len(),
{
    if line.len() == 0 {
        0
    } else {
        tally(line.drop_last(), wanted) + if wanted(line.last()) {
            1nat
        } else {
            0nat
        }
    }
}

/// Whether a command may be refused.
pub open spec fn refusable(command: RealtimeCommand) -> bool {
    !installs_sampler(command) && command !is LiveAllNotesOff
}

/// What holds of the line at all times: no more refusable commands than the bound, at
/// most one timeline to install, at most one sampler to install and at most one
/// silencing of all notes.
pub open spec fn orderly(line: Seq<RealtimeCommand>) -> bool {
    &&& tally(line, |command: RealtimeCommand| refusable(command)) <= AUDIO_BACKLOG
    &&& tally(line, |command: RealtimeCommand| installs_snapshot(command)) <= 1
    &&& tally(line, |command: RealtimeCommand| installs_sampler(command)) <= 1
    &&& tally(line, |command: RealtimeCommand| command is LiveAllNotesOff) <= 1
}

/// How the callback's own queue took a command.
#[derive(Clone, Copy, Debug, PartialEq, Eq, Structural)]
pub enum SendOutcome {
    Sent,
    Full,
    Disconnected,
}

/// What sending goes on with.
#[derive(Clone, Copy, Debug, PartialEq, Eq, Structural)]
pub enum FlushStep {
    Continue,
    Wait,
    Fail,
}

/// The line of commands that wait for the callback.
#[derive(Debug)]
pub struct CommandQueue {
    pub line: VecDeque<RealtimeCommand>,
}

impl View for CommandQueue {
    type V = Seq<RealtimeCommand>;

    open spec fn view(&self) -> Seq<RealtimeCommand> {
        self.line@
    }
}

impl CommandQueue {
    /// An empty line.
    pub fn new() -> (queue: Self)
        ensures
            queue@ == Seq::<RealtimeCommand>::empty(),
    {
        CommandQueue { line: VecDeque::new() }
    }

    /// The number of commands that wait.
    pub fn len(&self) -> (length: usize)
        ensures
            length == self@.len(),
    {
        self.line.len()
    }

    /// Adds a command; `false` means that it was refused.
    pub fn enqueue(&mut self, command: RealtimeCommand) -> (accepted: bool)
        ensures
            accepted == !refused(old(self)@, command),
            final(self)@ == enqueued(old(self)@, command),
    {
        if matches!(command, RealtimeCommand::InstallSnapshot(_)) {
            let ghost before = self.line@;
            let mut index: usize = self.line.len();
            assert(before.take(index as int) =~= before);
            while index > 0
                invariant_except_break
                    last_install(before.take(index as int)) == last_install(before),
                invariant
                    index <= before.len(),
                    self.line@ == before,
                ensures
                    index == 0 ==> last_install(before) == -1,
                    index > 0 ==> last_install(before) == index - 1,
                decreases index,
            {
                assert(before.take(index as int).drop_last() =~= before.take(index - 1));
                if matches!(self.line[index - 1], RealtimeCommand::InstallSnapshot(_)) {
                    break;
                }
                index -= 1;
            }
            if index > 0 {
                self.line.remove(index - 1);
            }
        }
        if self.line.len() < AUDIO_BACKLOG {
            self.line.push_back(command);
            true
        } else {
            false
        }
    }

    /// Adds several commands in order; `false` means that one was refused.
    pub fn enqueue_all(&mut self, commands: &Vec<RealtimeCommand>) -> (accepted: bool)
        ensures
            accepted == !any_refused(old(self)@, commands@),
            final(self)@ == enqueued_all(old(self)@, commands@),
    {
        let mut accepted = true;
        let mut index: usize = 0;
        while index < commands.len()
            invariant
                index <= commands.len(),
                self@ == enqueued_all(old(self)@, commands@.take(index as int)),
                accepted == !any_refused(old(self)@, commands@.take(index as int)),
            decreases commands.len() - index,
        {
            assert(commands@.take(index + 1).drop_last() =~= commands@.take(index as int));
            let joined = self.enqueue(commands[index]);
            accepted = accepted && joined;
            index += 1;
        }
        assert(commands@.take(commands.len() as int) =~= commands@);
        accepted
    }

    /// Adds a command that must not be lost, however long the line is.
    pub fn force(&mut self, command: RealtimeCommand)
        ensures
            final(self)@ == old(self)@.push(command),
    {
        self.line.push_back(command);
    }

    /// Empties the line.
    pub fn clear(&mut self)
        ensures
            final(self)@ == Seq::<RealtimeCommand>::empty(),
    {
        self.line.clear();
    }

    /// Puts other commands in the place of the whole line.
    pub fn replace(&mut self, commands: &Vec<RealtimeCommand>)
        ensures
            final(self)@ == commands@,
    {
        self.line.clear();
        let mut index: usize = 0;
        while index < commands.len()
            invariant
                index <= commands.len(),
                self.line@ == commands@.take(index as int),
            decreases commands.len() - index,
        {
            self.line.push_back(commands[index]);
            assert(commands@.take(index + 1) =~= commands@.take(index as int).push(
                commands@[index as int],
            ));
            index += 1;
        }
        assert(commands@.take(index as int) =~= commands@);
    }

    /// Takes commands out of the line and keeps the order of the others.
    pub fn withdraw(&mut self, what: Withdrawal)
        ensures
            final(self)@ == withdrawn(old(self)@, what),
    {
        let ghost before = self.line@;
        let ghost stays = |command: RealtimeCommand| !what.takes(command);
        let mut kept: VecDeque<RealtimeCommand> = VecDeque::new();
        let mut index: usize = 0;
        while index < self.line.len()
            invariant
                index <= before.len(),
                self.line@ == before,
                stays == (|command: RealtimeCommand| !what.takes(command)),
                kept@ == before.take(index as int).filter(stays),
            decreases before.len() - index,
        {
            let command = self.line[index];
            assert(before.take(index + 1).drop_last() =~= before.take(index as int));
            reveal(Seq::filter);
            if !what.matches(&command) {
                kept.push_back(command);
            }
            index += 1;
        }
        assert(before.take(before.len() as int) =~= before);
        self.line = kept;
    }

    /// The command to send next.
    pub fn front(&self) -> (command: Option<RealtimeCommand>)
        ensures
            command == (if self@.len() > 0 {
                Some(self@[0])
            } else {
                None
            }),
    {
        if self.line.len() > 0 {
            Some(self.line[0])
        } else {
            None
        }
    }

    /// Notes how the front command fared. One that did not fit stays in front; one that
    /// met a callback that is gone is dropped.
    pub fn flushed(&mut self, outcome: SendOutcome) -> (step: FlushStep)
        requires
            old(self)@.len() > 0,
        ensures
            step == (match outcome {
                SendOutcome::Sent => FlushStep::Continue,
                SendOutcome::Full => FlushStep::Wait,
                SendOutcome::Disconnected => FlushStep::Fail,
            }),
            final(self)@ == (if outcome == SendOutcome::Full {
                old(self)@
            } else {
                old(self)@.skip(1)
            }),
    {
        match outcome {
            SendOutcome::Full => FlushStep::Wait,
            SendOutcome::Sent => {
                self.line.pop_front();
                assert(self@ =~= old(self)@.skip(1));
                FlushStep::Continue
            },
            SendOutcome::Disconnected => {
                self.line.pop_front();
                assert(self@ =~= old(self)@.skip(1));
                FlushStep::Fail
            },
        }
    }
}

proof fn lemma_tally_push(
    line: Seq<RealtimeCommand>,
    command: RealtimeCommand,
    wanted: spec_fn(RealtimeCommand) -> bool,
)
    ensures
        tally(line.push(command), wanted) == tally(line, wanted) + if wanted(command) {
            1nat
        } else {
            0nat
        },
{
    assert(line.push(command).drop_last() =~= line);
}

proof fn lemma_tally_remove(
    line: Seq<RealtimeCommand>,
    place: int,
    wanted: spec_fn(RealtimeCommand) -> bool,
)
    requires
        0 <= place < line.len(),
    ensures
        tally(line.remove(place), wanted) == tally(line, wanted) - if wanted(line[place]) {
            1int
        } else {
            0int
        },
    decreases line.len(),
{
    if place == line.len() - 1 {
        assert(line.remove(place) =~= line.drop_last());
    } else {
        lemma_tally_remove(line.drop_last(), place, wanted);
        assert(line.remove(place).drop_last() =~= line.drop_last().remove(place));
        assert(line.remove(place).last() == line.last());
    }
}

proof fn lemma_tally_filter(
    line: Seq<RealtimeCommand>,
    stays: spec_fn(RealtimeCommand) -> bool,
    wanted: spec_fn(RealtimeCommand) -> bool,
)
    ensures
        tally(line.filter(stays), wanted) <= tally(line, wanted),
        (forall|command: RealtimeCommand|
            #![trigger wanted(command)]
            #![trigger stays(command)]
            wanted(command) ==> !stays(command)) ==> tally(
            line.filter(stays),
            wanted,
        ) == 0,
    decreases line.len(),
{
    reveal(Seq::filter);
    if line.len() > 0 {
        let rest = line.drop_last();
        lemma_tally_filter(rest, stays, wanted);
        if stays(line.last()) {
            lemma_tally_push(rest.filter(stays), line.last(), wanted);
        }
    }
}

proof fn lemma_tally_total(line: Seq<RealtimeCommand>)
    ensures
        line.len() == tally(line, |command: RealtimeCommand| refusable(command)) + tally(
            line,
            |command: RealtimeCommand| installs_sampler(command),
        ) + tally(line, |command: RealtimeCommand| command is LiveAllNotesOff),
    decreases line.len(),
{
    if line.len() > 0 {
        lemma_tally_total(line.drop_last());
    }
}

proof fn lemma_last_install(line: Seq<RealtimeCommand>)
    ensures
        -1 <= last_install(line) < line.len(),
        last_install(line) >= 0 ==> installs_snapshot(line[last_install(line)]),
        last_install(line) == -1 ==> tally(
            line,
            |command: RealtimeCommand| installs_snapshot(command),
        ) == 0,
    decreases line.len(),
{
    if line.len() > 0 && !installs_snapshot(line.last()) {
        lemma_last_install(line.drop_last());
    }
}

/// An orderly line is bounded: two commands more than the bound on refusable ones.
pub proof fn orderly_line_is_bounded(line: Seq<RealtimeCommand>)
    requires
        orderly(line),
    ensures
        line.len() <= AUDIO_BACKLOG + 2,
{
    lemma_tally_total(line);
}

/// An empty line is orderly.
pub proof fn empty_line_is_orderly()
    ensures
        orderly(Seq::<RealtimeCommand>::empty()),
{
}

/// Adding a command that may be refused keeps the line orderly.
pub proof fn enqueue_keeps_order(line: Seq<RealtimeCommand>, command: RealtimeCommand)
    requires
        orderly(line),
        refusable(command),
    ensures
        orderly(enqueued(line, command)),
{
    let room = making_room(line, command);
    lemma_last_install(line);
    let may_refuse = |c: RealtimeCommand| refusable(c);
    let snapshots = |c: RealtimeCommand| installs_snapshot(c);
    let samplers = |c: RealtimeCommand| installs_sampler(c);
    let silences = |c: RealtimeCommand| c is LiveAllNotesOff;
    if installs_snapshot(command) && last_install(line) >= 0 {
        let place = last_install(line);
        lemma_tally_remove(line, place, may_refuse);
        lemma_tally_remove(line, place, snapshots);
        lemma_tally_remove(line, place, samplers);
        lemma_tally_remove(line, place, silences);
    }
    lemma_tally_total(room);
    lemma_tally_push(room, command, may_refuse);
    lemma_tally_push(room, command, snapshots);
    lemma_tally_push(room, command, samplers);
    lemma_tally_push(room, command, silences);
}

/// Adding several commands that may be refused keeps the line orderly.
pub proof fn enqueue_all_keeps_order(line: Seq<RealtimeCommand>, commands: Seq<RealtimeCommand>)
    requires
        orderly(line),
        forall|i: int| 0 <= i < commands.len() ==> refusable(#[trigger] commands[i]),
    ensures
        orderly(enqueued_all(line, commands)),
    decreases commands.len(),
{
    if commands.len() > 0 {
        enqueue_all_keeps_order(line, commands.drop_last());
        enqueue_keeps_order(enqueued_all(line, commands.drop_last()), commands.last());
    }
}

/// Taking commands out keeps the line orderly.
pub proof fn withdrawal_keeps_order(line: Seq<RealtimeCommand>, what: Withdrawal)
    requires
        orderly(line),
    ensures
        orderly(withdrawn(line, what)),
{
    let stays = |command: RealtimeCommand| !what.takes(command);
    lemma_tally_filter(line, stays, |c: RealtimeCommand| refusable(c));
    lemma_tally_filter(line, stays, |c: RealtimeCommand| installs_snapshot(c));
    lemma_tally_filter(line, stays, |c: RealtimeCommand| installs_sampler(c));
    lemma_tally_filter(line, stays, |c: RealtimeCommand| c is LiveAllNotesOff);
}

/// A silencing of all notes that replaces the live notes that wait keeps the line orderly.
pub proof fn silencing_keeps_order(line: Seq<RealtimeCommand>)
    requires
        orderly(line),
    ensures
        orderly(withdrawn(line, Withdrawal::LiveNotes).push(RealtimeCommand::LiveAllNotesOff)),
{
    let stays = |command: RealtimeCommand| !Withdrawal::LiveNotes.takes(command);
    let rest = withdrawn(line, Withdrawal::LiveNotes);
    let command = RealtimeCommand::LiveAllNotesOff;
    withdrawal_keeps_order(line, Withdrawal::LiveNotes);
    lemma_tally_filter(line, stays, |c: RealtimeCommand| c is LiveAllNotesOff);
    lemma_tally_push(rest, command, |c: RealtimeCommand| refusable(c));
    lemma_tally_push(rest, command, |c: RealtimeCommand| installs_snapshot(c));
    lemma_tally_push(rest, command, |c: RealtimeCommand| installs_sampler(c));
    lemma_tally_push(rest, command, |c: RealtimeCommand| c is LiveAllNotesOff);
}

/// A sampler that replaces the samplers that wait keeps the line orderly, whether or not
/// the live notes are taken out with them.
pub proof fn new_sampler_keeps_order(
    line: Seq<RealtimeCommand>,
    what: Withdrawal,
    sampler: Option<u64>,
)
    requires
        orderly(line),
        what == Withdrawal::Samplers || what == Withdrawal::Keyboard,
    ensures
        orderly(withdrawn(line, what).push(RealtimeCommand::InstallLiveSampler(sampler))),
{
    let stays = |command: RealtimeCommand| !what.takes(command);
    let rest = withdrawn(line, what);
    let command = RealtimeCommand::InstallLiveSampler(sampler);
    withdrawal_keeps_order(line, what);
    lemma_tally_filter(line, stays, |c: RealtimeCommand| installs_sampler(c));
    lemma_tally_push(rest, command, |c: RealtimeCommand| refusable(c));
    lemma_tally_push(rest, command, |c: RealtimeCommand| installs_snapshot(c));
    lemma_tally_push(rest, command, |c: RealtimeCommand| installs_sampler(c));
    lemma_tally_push(rest, command, |c: RealtimeCommand| c is LiveAllNotesOff);
}

/// Sending the front command keeps the line orderly.
pub proof fn sending_keeps_order(line: Seq<RealtimeCommand>)
    requires
        orderly(line),
        line.len() > 0,
    ensures
        orderly(line.skip(1)),
{
    assert(line.skip(1) =~= line.remove(0));
    lemma_tally_remove(line, 0, |c: RealtimeCommand| refusable(c));
    lemma_tally_remove(line, 0, |c: RealtimeCommand| installs_snapshot(c));
    lemma_tally_remove(line, 0, |c: RealtimeCommand| installs_sampler(c));
    lemma_tally_remove(line, 0, |c: RealtimeCommand| c is LiveAllNotesOff);
}

/// Withdrawing takes out what it is named after: the snapshots, the samplers, the notes that are
/// played live, or both of the latter.
pub proof fn withdrawals_take_what_they_name(command: RealtimeCommand)
    ensures
        ({
            let note = command is LiveNoteOn || command is LiveNoteOnTuned || command is LiveNoteOff
                || command is LiveAllNotesOff;
            &&& Withdrawal::Snapshots.takes(command) <==> command is InstallSnapshot
            &&& Withdrawal::Samplers.takes(command) <==> command is InstallLiveSampler
            &&& Withdrawal::LiveNotes.takes(command) <==> note
            &&& Withdrawal::Keyboard.takes(command) <==> note || command is InstallLiveSampler
        }),
{
}

/// A command stays in the line exactly if it is not one of those that are withdrawn.
pub proof fn withdrawals_leave_the_others(
    line: Seq<RealtimeCommand>,
    what: Withdrawal,
    command: RealtimeCommand,
)
    ensures
        withdrawn(line, what).contains(command) <==> line.contains(command) && !what.takes(command),
        withdrawn(line, what).len() <= line.len(),
        what.takes(command) ==> withdrawn(line.push(command), what) == withdrawn(line, what),
        !what.takes(command) ==> withdrawn(line.push(command), what) == withdrawn(line, what).push(
            command,
        ),
{
    let kept = |c: RealtimeCommand| !what.takes(c);
    assert(line.push(command).drop_last() =~= line);
    reveal(Seq::filter);
    assert(line.push(command).last() == command);
    lemma_filter_members(line, kept, command);
}

proof fn lemma_filter_members(
    line: Seq<RealtimeCommand>,
    kept: spec_fn(RealtimeCommand) -> bool,
    command: RealtimeCommand,
)
    ensures
        line.filter(kept).contains(command) <==> line.contains(command) && kept(command),
        line.filter(kept).len() <= line.len(),
    decreases line.len(),
{
    reveal(Seq::filter);
    if line.len() > 0 {
        let less = line.drop_last();
        lemma_filter_members(less, kept, command);
        let before = less.filter(kept);
        if line.contains(command) {
            let i = choose|i: int| 0 <= i < line.len() && line[i] == command;
            if i < less.len() {
                assert(less[i] == command);
            }
        }
        if less.contains(command) {
            let i = choose|i: int| 0 <= i < less.len() && less[i] == command;
            assert(line[i] == command);
        }
        assert(line[line.len() - 1] == line.last());
        if kept(line.last()) {
            let after = before.push(line.last());
            assert(line.filter(kept) == after);
            if before.contains(command) {
                let i = choose|i: int| 0 <= i < before.len() && before[i] == command;
                assert(after[i] == command);
            }
            assert(after[before.len() as int] == line.last());
            if after.contains(command) && command != line.last() {
                let i = choose|i: int| 0 <= i < after.len() && after[i] == command;
                assert(before[i] == command);
            }
        }
    }
}

/// A command goes to the end of the line, which takes 128 of them; a new snapshot takes the place
/// of the last one that waits, which will not be wanted any more.
pub proof fn commands_go_to_the_end(line: Seq<RealtimeCommand>, command: RealtimeCommand)
    ensures
        ({
            let after = enqueued(line, command);
            let waits = exists|i: int| 0 <= i < line.len() && #[trigger] line[i] is InstallSnapshot;
            &&& !(command is InstallSnapshot) || !waits ==> (refused(line, command) <==> line.len()
                >= 128)
            &&& !(command is InstallSnapshot) || !waits ==> after == if line.len() < 128 {
                line.push(command)
            } else {
                line
            }
            &&& command is InstallSnapshot && waits && line.len() <= 128 ==> {
                &&& !refused(line, command)
                &&& after.len() == line.len()
                &&& after.last() == command
                &&& exists|i: int|
                    0 <= i < line.len() && #[trigger] line[i] is InstallSnapshot && after
                        == line.remove(i).push(command)
            }
        }),
{
    lemma_none_behind(line);
    let place = last_install(line);
    if place >= 0 {
        assert(line[place] is InstallSnapshot);
    }
}

proof fn lemma_none_behind(line: Seq<RealtimeCommand>)
    ensures
        -1 <= last_install(line) < line.len(),
        last_install(line) >= 0 ==> line[last_install(line)] is InstallSnapshot,
        forall|i: int|
            last_install(line) < i < line.len() ==> !(#[trigger] line[i] is InstallSnapshot),
    decreases line.len(),
{
    if line.len() > 0 && !installs_snapshot(line.last()) {
        let less = line.drop_last();
        lemma_none_behind(less);
        assert forall|i: int| last_install(line) < i < line.len() implies !(
        #[trigger] line[i] is InstallSnapshot) by {
            if i < less.len() {
                assert(less[i] == line[i]);
            }
        }
    }
}

/// Several commands are taken one after the other, and are refused if one of them is.
pub proof fn commands_are_taken_in_turn(
    line: Seq<RealtimeCommand>,
    commands: Seq<RealtimeCommand>,
    command: RealtimeCommand,
)
    ensures
        enqueued_all(line, Seq::empty()) == line,
        enqueued_all(line, commands.push(command)) == enqueued(
            enqueued_all(line, commands),
            command,
        ),
        !any_refused(line, Seq::empty()),
        any_refused(line, commands.push(command)) <==> any_refused(line, commands) || refused(
            enqueued_all(line, commands),
            command,
        ),
{
    assert(commands.push(command).drop_last() =~= commands);
}

/// Commands that fit go into the line as they are, one behind the other.
pub proof fn commands_that_fit_go_in(
    line: Seq<RealtimeCommand>,
    commands: Seq<RealtimeCommand>,
)
    requires
        line.len() + commands.len() <= 128,
        forall|i: int| 0 <= i < commands.len() ==> !(#[trigger] commands[i] is InstallSnapshot),
    ensures
        enqueued_all(line, commands) == line + commands,
        !any_refused(line, commands),
    decreases commands.len(),
{
    if commands.len() > 0 {
        let less = commands.drop_last();
        assert forall|i: int| 0 <= i < less.len() implies !(
        #[trigger] less[i] is InstallSnapshot) by {
            assert(commands[i] == less[i]);
        }
        commands_that_fit_go_in(line, less);
        assert(!(commands[commands.len() - 1] is InstallSnapshot));
        commands_go_to_the_end(line + less, commands.last());
        assert((line + less).push(commands.last()) =~= line + commands);
    } else {
        assert(line + commands =~= line);
    }
}

} // verus!
