//! Editing the notes of a clip on a grid of pitches and beats.
//!
//! Positions and lengths are counted in parts of a beat. Distances on the screen are
//! counted in whatever the grid's size is counted in.
use crate::clock::BEAT_PARTS;
use crate::intents::Intent;
use crate::text::{decimal, push_decimal};
use crate::transport::clamped;
use vstd::prelude::*;

verus! {

/// The lowest pitch of the grid.
pub const PIANO_LOW_PITCH: u8 = 36;

/// The highest pitch of the grid.
pub const PIANO_HIGH_PITCH: u8 = 84;

/// The rows of the grid.
pub const PIANO_ROWS: u8 = 49;

/// The length of a new note, and the raster of the grid.
pub const GRID_STEP: i64 = 240_000;

/// A note of the clip.
#[derive(Clone, Copy, Debug, PartialEq, Eq, Structural)]
pub struct RollNote {
    pub event_index: usize,
    pub start: i64,
    pub length: i64,
    pub pitch: u8,
    pub velocity: u8,
}

/// The clip that is edited.
#[derive(Debug)]
pub struct RollClip {
    pub track: usize,
    pub clip: usize,
    pub start: i64,
    pub length: i64,
    pub notes: Vec<RollNote>,
}

/// What is remembered between two looks at the grid.
#[derive(Clone, Copy, Debug, PartialEq, Eq, Structural)]
pub struct PianoRoll {
    pub selected: Option<usize>,
    pub new_pitch: u8,
    pub new_velocity: u8,
}

/// What the user does on the grid.
#[derive(Clone, Copy, Debug)]
pub enum RollEvent {
    NewPitch(u8),
    NewVelocity(u8),
    /// Add a note where the transport is.
    AddAtPlayhead(i64),
    SelectedVelocity(u8),
    DeleteSelected,
    Click(usize),
    /// The end of a note was dragged by this much.
    Resize { event_index: usize, delta: i64 },
    /// A note was dragged by this much and by so many rows up.
    Drag { event_index: usize, delta: i64, rows: i64 },
    /// An empty place was clicked twice, at this position and in this row from the top.
    Fill { position: i64, row: i64 },
    DeleteKey,
}

/// A position or a length that can be written down.
pub open spec fn countable(position: int) -> bool {
    i64::MIN <= position <= i64::MAX
}

/// The raster's line nearest to a position, the farther one of two from the start.
pub open spec fn snapped(position: int) -> int {
    if position >= 0 {
        (position + GRID_STEP / 2) / (GRID_STEP as int) * GRID_STEP
    } else {
        -((-position + GRID_STEP / 2) / (GRID_STEP as int) * GRID_STEP)
    }
}

/// The raster's line at or before a position.
pub open spec fn snapped_down(position: int) -> int {
    position / (GRID_STEP as int) * GRID_STEP
}

fn snap(position: i64, delta: i64) -> (line: i64)
    requires
        countable(snapped(position + delta)),
    ensures
        line == snapped(position + delta),
{
    let moved: i128 = position as i128 + delta as i128;
    if moved >= 0 {
        ((moved + 120_000) / 240_000 * 240_000) as i64
    } else {
        (-((-moved + 120_000) / 240_000 * 240_000)) as i64
    }
}

fn snap_down(position: i64) -> (line: i64)
    requires
        countable(snapped_down(position as int)),
    ensures
        line == snapped_down(position as int),
{
    if position >= 0 {
        position / 240_000 * 240_000
    } else {
        let over: i64 = (-(position as i128) % 240_000) as i64;
        if over == 0 {
            position
        } else {
            position - (240_000 - over)
        }
    }
}

/// The place of the first note with an index, or the number of notes.
pub open spec fn note_place(notes: Seq<RollNote>, event_index: usize) -> int
    decreases notes.len(),
{
    if notes.len() == 0 {
        0
    } else if notes[0].event_index == event_index {
        0
    } else {
        1 + note_place(notes.skip(1), event_index)
    }
}

/// The first note with an index, if there is one.
pub open spec fn note_of(notes: Seq<RollNote>, event_index: usize) -> Option<RollNote> {
    let place = note_place(notes, event_index);
    if 0 <= place < notes.len() {
        Some(notes[place])
    } else {
        None
    }
}

fn find_note(notes: &Vec<RollNote>, event_index: usize) -> (note: Option<RollNote>)
    ensures
        note == note_of(notes@, event_index),
{
    let mut place: usize = 0;
    assert(notes@.skip(0) =~= notes@);
    while place < notes.len()
        invariant
            place <= notes.len(),
            note_place(notes@, event_index) == place + note_place(
                notes@.skip(place as int),
                event_index,
            ),
        decreases notes.len() - place,
    {
        let ghost rest = notes@.skip(place as int);
        if notes[place].event_index == event_index {
            return Some(notes[place]);
        }
        assert(rest.skip(1) =~= notes@.skip(place + 1));
        place += 1;
    }
    None
}

/// A change of a note.
pub open spec fn edited(
    clip: RollClip,
    note: RollNote,
    start: int,
    length: int,
    pitch: int,
    velocity: u8,
) -> Intent {
    Intent::EditNote {
        track: clip.track,
        clip: clip.clip,
        event_index: note.event_index,
        start: start as i64,
        length: length as i64,
        pitch: pitch as u8,
        velocity,
    }
}

/// A new note.
pub open spec fn added(clip: RollClip, start: int, pitch: int, velocity: u8) -> Intent {
    Intent::AddNote {
        track: clip.track,
        clip: clip.clip,
        start: start as i64,
        length: GRID_STEP,
        pitch: pitch as u8,
        velocity,
    }
}

/// The end of a note.
pub open spec fn deleted(clip: RollClip, event_index: usize) -> Intent {
    Intent::DeleteNote { track: clip.track, clip: clip.clip, event_index }
}

/// The note that is selected, if it is there.
pub open spec fn selected_note(roll: PianoRoll, clip: RollClip) -> Option<RollNote> {
    match roll.selected {
        Some(event_index) => note_of(clip.notes@, event_index),
        None => None,
    }
}

/// What an event asks for.
pub open spec fn roll_intent(roll: PianoRoll, clip: RollClip, event: RollEvent) -> Option<Intent> {
    match event {
        RollEvent::AddAtPlayhead(playhead) => Some(
            added(
                clip,
                clamped(playhead - clip.start, 0, clip.length as int),
                roll.new_pitch as int,
                roll.new_velocity,
            ),
        ),
        RollEvent::SelectedVelocity(velocity) => match selected_note(roll, clip) {
            Some(note) => Some(
                edited(
                    clip,
                    note,
                    note.start as int,
                    note.length as int,
                    note.pitch as int,
                    clamped(velocity as int, 0, 127) as u8,
                ),
            ),
            None => None,
        },
        RollEvent::DeleteSelected => match selected_note(roll, clip) {
            Some(_) => Some(deleted(clip, roll.selected->0)),
            None => None,
        },
        RollEvent::Resize { event_index, delta } => match note_of(clip.notes@, event_index) {
            Some(note) => Some(
                edited(
                    clip,
                    note,
                    note.start as int,
                    snapped(note.length + delta),
                    note.pitch as int,
                    note.velocity,
                ),
            ),
            None => None,
        },
        RollEvent::Drag { event_index, delta, rows } => match note_of(clip.notes@, event_index) {
            Some(note) => Some(
                edited(
                    clip,
                    note,
                    snapped(note.start + delta),
                    note.length as int,
                    clamped(note.pitch + rows, 0, 127),
                    note.velocity,
                ),
            ),
            None => None,
        },
        RollEvent::Fill { position, row } => Some(
            added(
                clip,
                snapped_down(position as int),
                clamped(PIANO_HIGH_PITCH - row, 0, 127),
                roll.new_velocity,
            ),
        ),
        RollEvent::DeleteKey => match roll.selected {
            Some(event_index) => Some(deleted(clip, event_index)),
            None => None,
        },
        _ => None,
    }
}

/// What is remembered after an event: a note that was changed is no longer selected.
pub open spec fn roll_after(roll: PianoRoll, clip: RollClip, event: RollEvent) -> PianoRoll {
    match event {
        RollEvent::NewPitch(pitch) => PianoRoll {
            new_pitch: clamped(pitch as int, 0, 127) as u8,
            ..roll
        },
        RollEvent::NewVelocity(velocity) => PianoRoll {
            new_velocity: clamped(velocity as int, 0, 127) as u8,
            ..roll
        },
        RollEvent::DeleteSelected => if selected_note(roll, clip) is Some {
            PianoRoll { selected: None, ..roll }
        } else {
            roll
        },
        RollEvent::Click(event_index) => PianoRoll { selected: Some(event_index), ..roll },
        RollEvent::Resize { event_index, .. } => if note_of(clip.notes@, event_index) is Some {
            PianoRoll { selected: None, ..roll }
        } else {
            roll
        },
        RollEvent::Drag { event_index, .. } => if note_of(clip.notes@, event_index) is Some {
            PianoRoll { selected: None, ..roll }
        } else {
            roll
        },
        RollEvent::DeleteKey => PianoRoll { selected: None, ..roll },
        _ => roll,
    }
}

/// Whether what an event asks of a clip can be written down. A clip is not shorter than
/// nothing.
pub open spec fn in_reach(clip: RollClip, event: RollEvent) -> bool {
    match event {
        RollEvent::AddAtPlayhead(_) => 0 <= clip.length,
        RollEvent::Resize { event_index, delta } => note_of(clip.notes@, event_index) matches Some(
            note,
        ) ==> countable(snapped(note.length + delta)),
        RollEvent::Drag { event_index, delta, .. } => note_of(
            clip.notes@,
            event_index,
        ) matches Some(note) ==> countable(snapped(note.start + delta)),
        RollEvent::Fill { position, .. } => countable(snapped_down(position as int)),
        _ => true,
    }
}

fn pitch_at(pitch: i128) -> (kept: u8)
    ensures
        kept == clamped(pitch as int, 0, 127),
{
    if pitch < 0 {
        0
    } else if pitch > 127 {
        127
    } else {
        pitch as u8
    }
}

proof fn lemma_note_found(notes: Seq<RollNote>, event_index: usize)
    ensures
        0 <= note_place(notes, event_index) <= notes.len(),
        note_of(notes, event_index) matches Some(note) ==> note.event_index == event_index
            && notes.contains(note),
    decreases notes.len(),
{
    if notes.len() > 0 && notes[0].event_index != event_index {
        lemma_note_found(notes.skip(1), event_index);
        let place = note_place(notes.skip(1), event_index);
        if place < notes.len() - 1 {
            assert(notes.skip(1)[place] == notes[place + 1]);
        }
    }
}

impl PianoRoll {
    /// Nothing is selected; new notes are middle C, fairly loud.
    pub fn new() -> (roll: Self)
        ensures
            roll == (PianoRoll { selected: None, new_pitch: 60, new_velocity: 100 }),
    {
        PianoRoll { selected: None, new_pitch: 60, new_velocity: 100 }
    }

    /// Performs an event, and gives the change that it asks for.
    pub fn piano_roll_editor(&mut self, clip: &RollClip, event: RollEvent) -> (intent: Option<
        Intent,
    >)
        requires
            in_reach(*clip, event),
        ensures
            *final(self) == roll_after(*old(self), *clip, event),
            intent == roll_intent(*old(self), *clip, event),
    {
        let (track, index) = (clip.track, clip.clip);
        match event {
            RollEvent::NewPitch(pitch) => {
                self.new_pitch = pitch_at(pitch as i128);
                None
            },
            RollEvent::NewVelocity(velocity) => {
                self.new_velocity = pitch_at(velocity as i128);
                None
            },
            RollEvent::AddAtPlayhead(playhead) => {
                let offset: i128 = playhead as i128 - clip.start as i128;
                let start: i64 = if offset < 0 {
                    0
                } else if offset > clip.length as i128 {
                    clip.length
                } else {
                    offset as i64
                };
                Some(
                    Intent::AddNote {
                        track,
                        clip: index,
                        start,
                        length: GRID_STEP,
                        pitch: self.new_pitch,
                        velocity: self.new_velocity,
                    },
                )
            },
            RollEvent::SelectedVelocity(velocity) => {
                let note = match self.selected {
                    Some(event_index) => find_note(&clip.notes, event_index),
                    None => None,
                };
                match note {
                    Some(note) => Some(
                        Intent::EditNote {
                            track,
                            clip: index,
                            event_index: note.event_index,
                            start: note.start,
                            length: note.length,
                            pitch: note.pitch,
                            velocity: pitch_at(velocity as i128),
                        },
                    ),
                    None => None,
                }
            },
            RollEvent::DeleteSelected => {
                match self.selected {
                    Some(event_index) => {
                        if find_note(&clip.notes, event_index).is_some() {
                            self.selected = None;
                            Some(Intent::DeleteNote { track, clip: index, event_index })
                        } else {
                            None
                        }
                    },
                    None => None,
                }
            },
            RollEvent::Click(event_index) => {
                self.selected = Some(event_index);
                None
            },
            RollEvent::Resize { event_index, delta } => {
                proof {
                    lemma_note_found(clip.notes@, event_index);
                }
                match find_note(&clip.notes, event_index) {
                    Some(note) => {
                        self.selected = None;
                        Some(
                            Intent::EditNote {
                                track,
                                clip: index,
                                event_index: note.event_index,
                                start: note.start,
                                length: snap(note.length, delta),
                                pitch: note.pitch,
                                velocity: note.velocity,
                            },
                        )
                    },
                    None => None,
                }
            },
            RollEvent::Drag { event_index, delta, rows } => {
                proof {
                    lemma_note_found(clip.notes@, event_index);
                }
                match find_note(&clip.notes, event_index) {
                    Some(note) => {
                        self.selected = None;
                        Some(
                            Intent::EditNote {
                                track,
                                clip: index,
                                event_index: note.event_index,
                                start: snap(note.start, delta),
                                length: note.length,
                                pitch: pitch_at(note.pitch as i128 + rows as i128),
                                velocity: note.velocity,
                            },
                        )
                    },
                    None => None,
                }
            },
            RollEvent::Fill { position, row } => Some(
                Intent::AddNote {
                    track,
                    clip: index,
                    start: snap_down(position),
                    length: GRID_STEP,
                    pitch: pitch_at(PIANO_HIGH_PITCH as i128 - row as i128),
                    velocity: self.new_velocity,
                },
            ),
            RollEvent::DeleteKey => {
                let selected = self.selected;
                self.selected = None;
                match selected {
                    Some(event_index) => Some(
                        Intent::DeleteNote { track, clip: index, event_index },
                    ),
                    None => None,
                }
            },
        }
    }
}

/// The rows between two places, to the nearest, the farther one of two, counted up.
pub open spec fn rows_between(distance: int, height: int) -> int {
    if distance <= 0 {
        (2 * -distance * PIANO_ROWS + height) / (2 * height)
    } else {
        -((2 * distance * PIANO_ROWS + height) / (2 * height))
    }
}

/// The rows that a drag down by `distance` moves a note up, on a grid of this height.
pub fn rows_moved(distance: i32, height: u32) -> (rows: i64)
    requires
        height > 0,
    ensures
        rows == rows_between(distance as int, height as int),
{
    let size: i64 = if distance < 0 {
        -(distance as i64)
    } else {
        distance as i64
    };
    let rows: i64 = (2 * size * 49 + height as i64) / (2 * height as i64);
    if distance <= 0 {
        rows
    } else {
        -rows
    }
}

/// The row of a place on a grid of this height, counted from the top.
pub fn row_at(offset: u32, height: u32) -> (row: i64)
    requires
        height > 0,
    ensures
        row == (offset * PIANO_ROWS) / (height as int),
{
    (offset as i64 * 49) / height as i64
}

/// Whether a note is on the grid.
pub fn on_grid(pitch: u8) -> (yes: bool)
    ensures
        yes == (PIANO_LOW_PITCH <= pitch <= PIANO_HIGH_PITCH),
{
    PIANO_LOW_PITCH <= pitch && pitch <= PIANO_HIGH_PITCH
}

/// The label of a row: only a C has one.
pub open spec fn row_text(pitch: u8) -> Option<Seq<char>> {
    if pitch % 12 == 0 {
        Some("C"@ + decimal((pitch / 12 - 1) as nat))
    } else {
        None
    }
}

/// The label of a row of the grid.
pub fn row_label(pitch: u8) -> (label: Option<String>)
    requires
        PIANO_LOW_PITCH <= pitch <= PIANO_HIGH_PITCH,
    ensures
        match label {
            Some(label) => row_text(pitch) == Some(label@),
            None => row_text(pitch) is None,
        },
{
    if pitch % 12 != 0 {
        return None;
    }
    let mut label = String::from_str("C");
    push_decimal(&mut label, (pitch / 12 - 1) as u64);
    assert(label@ =~= "C"@ + decimal((pitch / 12 - 1) as nat));
    Some(label)
}

/// How many beats of a clip have a line of their own, the start not counted.
pub fn beat_lines(length: i64) -> (beats: i64)
    requires
        0 <= length,
    ensures
        beats == length / BEAT_PARTS,
{
    length / BEAT_PARTS
}

/// Whatever the user does, notes keep to the pitches there are, notes that are moved keep
/// to the raster, and only notes that are there are changed.
pub proof fn edits_stay_on_the_keyboard(roll: PianoRoll, clip: RollClip, event: RollEvent)
    requires
        in_reach(clip, event),
        roll.new_pitch <= 127,
        roll.new_velocity <= 127,
        forall|i: int| 0 <= i < clip.notes@.len() ==> (#[trigger] clip.notes@[i]).pitch <= 127,
    ensures
        roll_intent(roll, clip, event) matches Some(intent) ==> {
            &&& intent matches Intent::AddNote { pitch, velocity, .. } ==> pitch <= 127 && velocity
                <= 127
            &&& intent matches Intent::EditNote { pitch, event_index, .. } ==> pitch <= 127
                && note_of(clip.notes@, event_index) is Some
        },
        event matches RollEvent::Drag { .. } ==> (roll_intent(roll, clip, event) matches Some(
            Intent::EditNote { start, .. },
        ) ==> start as int % (GRID_STEP as int) == 0),
{
    match event {
        RollEvent::Drag { event_index, delta, rows } => {
            lemma_note_found(clip.notes@, event_index);
            if let Some(note) = note_of(clip.notes@, event_index) {
                let place = note_place(clip.notes@, event_index);
                assert(clip.notes@[place].pitch <= 127);
            }
        },
        RollEvent::Resize { event_index, delta } => {
            lemma_note_found(clip.notes@, event_index);
            if let Some(note) = note_of(clip.notes@, event_index) {
                let place = note_place(clip.notes@, event_index);
                assert(clip.notes@[place].pitch <= 127);
            }
        },
        RollEvent::SelectedVelocity(_) => {
            if let Some(event_index) = roll.selected {
                lemma_note_found(clip.notes@, event_index);
                if let Some(note) = note_of(clip.notes@, event_index) {
                    let place = note_place(clip.notes@, event_index);
                    assert(clip.notes@[place].pitch <= 127);
                }
            }
        },
        _ => {},
    }
}

/// A position is snapped to the nearest line of the grid, a quarter of a beat apart; from the
/// middle away from the start.
pub proof fn snapping_meets_the_nearest_line(position: int)
    ensures
        snapped(position) % 240_000 == 0,
        -240_000 <= 2 * (snapped(position) - position) <= 240_000,
        2 * (snapped(position) - position) == 240_000 ==> position >= 0,
        2 * (snapped(position) - position) == -240_000 ==> position < 0,
        snapped_down(position) % 240_000 == 0,
        snapped_down(position) <= position < snapped_down(position) + 240_000,
{
}

/// A note that is dragged goes by as much as it was dragged, in time to the nearest line of the
/// grid and in pitch by as many keys as rows; nothing else of it changes, and the selection ends.
pub proof fn dragged_notes_follow_the_pointer(
    roll: PianoRoll,
    clip: RollClip,
    event_index: usize,
    delta: i64,
    rows: i64,
)
    requires
        in_reach(clip, RollEvent::Drag { event_index, delta, rows }),
        note_of(clip.notes@, event_index) is Some,
    ensures
        ({
            let event = RollEvent::Drag { event_index, delta, rows };
            let note = note_of(clip.notes@, event_index)->0;
            roll_after(roll, clip, event) == (PianoRoll { selected: None, ..roll }) && match roll_intent(
                roll,
                clip,
                event,
            ) {
                Some(
                    Intent::EditNote {
                        track,
                        clip: place,
                        event_index: index,
                        start,
                        length,
                        pitch,
                        velocity,
                    },
                ) => {
                    &&& track == clip.track && place == clip.clip && index == note.event_index
                    &&& start % 240_000 == 0
                    &&& -240_000 <= 2 * (start - note.start - delta) <= 240_000
                    &&& length == note.length && velocity == note.velocity
                    &&& 0 <= note.pitch + rows <= 127 ==> pitch == note.pitch + rows
                    &&& note.pitch + rows > 127 ==> pitch == 127
                    &&& note.pitch + rows < 0 ==> pitch == 0
                },
                _ => false,
            }
        }),
{
    let note = note_of(clip.notes@, event_index)->0;
    snapping_meets_the_nearest_line(note.start + delta);
}

/// A note whose end is dragged gets longer or shorter by as much, to the nearest line of the
/// grid; nothing else of it changes, and the selection ends.
pub proof fn resized_notes_follow_the_pointer(
    roll: PianoRoll,
    clip: RollClip,
    event_index: usize,
    delta: i64,
)
    requires
        in_reach(clip, RollEvent::Resize { event_index, delta }),
        note_of(clip.notes@, event_index) is Some,
    ensures
        ({
            let event = RollEvent::Resize { event_index, delta };
            let note = note_of(clip.notes@, event_index)->0;
            roll_after(roll, clip, event) == (PianoRoll { selected: None, ..roll }) && match roll_intent(
                roll,
                clip,
                event,
            ) {
                Some(
                    Intent::EditNote {
                        track,
                        clip: place,
                        event_index: index,
                        start,
                        length,
                        pitch,
                        velocity,
                    },
                ) => {
                    &&& track == clip.track && place == clip.clip && index == note.event_index
                    &&& length % 240_000 == 0
                    &&& -240_000 <= 2 * (length - note.length - delta) <= 240_000
                    &&& start == note.start && pitch == note.pitch && velocity == note.velocity
                },
                _ => false,
            }
        }),
{
    let note = note_of(clip.notes@, event_index)->0;
    snapping_meets_the_nearest_line(note.length + delta);
}

/// An empty place that is clicked twice gets a note a quarter of a beat long, on the line of the
/// grid at or before it, with the pitch of its row, of which the uppermost is the 84th.
pub proof fn filled_places_become_notes(
    roll: PianoRoll,
    clip: RollClip,
    position: i64,
    row: i64,
)
    requires
        in_reach(clip, RollEvent::Fill { position, row }),
    ensures
        roll_after(roll, clip, RollEvent::Fill { position, row }) == roll,
        match roll_intent(roll, clip, RollEvent::Fill { position, row }) {
            Some(Intent::AddNote { track, clip: place, start, length, pitch, velocity }) => {
                &&& track == clip.track && place == clip.clip
                &&& start % 240_000 == 0 && start <= position < start + 240_000
                &&& length == 240_000
                &&& 0 <= row <= 84 ==> pitch == 84 - row
                &&& velocity == roll.new_velocity
            },
            _ => false,
        },
{
    snapping_meets_the_nearest_line(position as int);
}

/// A note that is added at the playhead starts there, counted from the start of the clip, with
/// the pitch and the velocity that were set.
pub proof fn notes_are_added_at_the_playhead(roll: PianoRoll, clip: RollClip, playhead: i64)
    requires
        0 <= clip.length,
    ensures
        roll_after(roll, clip, RollEvent::AddAtPlayhead(playhead)) == roll,
        match roll_intent(roll, clip, RollEvent::AddAtPlayhead(playhead)) {
            Some(Intent::AddNote { track, clip: place, start, length, pitch, velocity }) => {
                &&& track == clip.track && place == clip.clip
                &&& 0 <= playhead - clip.start <= clip.length ==> start == playhead - clip.start
                &&& playhead < clip.start ==> start == 0
                &&& playhead - clip.start > clip.length ==> start == clip.length
                &&& length == 240_000
                &&& pitch == roll.new_pitch
                &&& velocity == roll.new_velocity
            },
            _ => false,
        },
{
}

/// The selected note can be made louder or softer and can be deleted, and nothing else of it
/// changes; a click selects a note, and the key deletes the selected one. What was not asked for
/// changes no note.
pub proof fn selected_notes_are_changed_alone(
    roll: PianoRoll,
    clip: RollClip,
    event_index: usize,
    value: u8,
)
    requires
        value <= 127,
    ensures
        ({
            let note = note_of(clip.notes@, event_index);
            let selected = PianoRoll { selected: Some(event_index), ..roll };
            let none = PianoRoll { selected: None, ..roll };
            let louder = roll_intent(selected, clip, RollEvent::SelectedVelocity(value));
            let gone = roll_intent(selected, clip, RollEvent::DeleteSelected);
            let removal = Intent::DeleteNote { track: clip.track, clip: clip.clip, event_index };
            &&& note is None ==> louder is None && gone is None
            &&& note matches Some(note) ==> {
                &&& note.event_index == event_index
                &&& louder == Some(
                    Intent::EditNote {
                        track: clip.track,
                        clip: clip.clip,
                        event_index,
                        start: note.start,
                        length: note.length,
                        pitch: note.pitch,
                        velocity: value,
                    },
                )
                &&& gone == Some(removal)
                &&& roll_after(selected, clip, RollEvent::DeleteSelected) == none
            }
            &&& roll_intent(selected, clip, RollEvent::DeleteKey) == Some(removal)
            &&& roll_after(selected, clip, RollEvent::DeleteKey) == none
            &&& roll_intent(none, clip, RollEvent::DeleteKey) is None
            &&& roll_intent(none, clip, RollEvent::DeleteSelected) is None
            &&& roll_after(roll, clip, RollEvent::Click(event_index)) == selected
            &&& roll_intent(roll, clip, RollEvent::Click(event_index)) is None
            &&& roll_after(roll, clip, RollEvent::NewPitch(value)) == (PianoRoll {
                new_pitch: value,
                ..roll
            })
            &&& roll_after(roll, clip, RollEvent::NewVelocity(value)) == (PianoRoll {
                new_velocity: value,
                ..roll
            })
            &&& roll_intent(roll, clip, RollEvent::NewPitch(value)) is None
            &&& roll_intent(roll, clip, RollEvent::NewVelocity(value)) is None
        }),
{
    lemma_note_found(clip.notes@, event_index);
    notes_are_found_by_their_event(clip.notes@, event_index);
}

/// A note is found by its event: the first that has it, if any has.
pub proof fn notes_are_found_by_their_event(notes: Seq<RollNote>, event_index: usize)
    ensures
        match note_of(notes, event_index) {
            Some(note) => note.event_index == event_index && notes.contains(note),
            None => forall|i: int|
                0 <= i < notes.len() ==> (#[trigger] notes[i]).event_index != event_index,
        },
    decreases notes.len(),
{
    if notes.len() > 0 && notes[0].event_index != event_index {
        let rest = notes.skip(1);
        notes_are_found_by_their_event(rest, event_index);
        lemma_note_found(notes, event_index);
        lemma_note_found(rest, event_index);
        let place = note_place(rest, event_index);
        assert(note_place(notes, event_index) == 1 + place);
        assert forall|i: int| 0 <= i < rest.len() implies #[trigger] rest[i] == notes[i + 1] by {
        }
        if 0 <= place < rest.len() {
            assert(notes[1 + place] == rest[place]);
        } else {
            assert forall|i: int| 0 <= i < notes.len() implies (#[trigger] notes[i]).event_index
                != event_index by {
                if i > 0 {
                    assert(notes[i] == rest[i - 1]);
                }
            }
        }
    }
}

/// Rows are counted from the distance to the nearest, 49 of them to the height; up is more.
pub proof fn rows_are_counted_to_the_nearest(distance: int, height: int)
    requires
        0 < height,
    ensures
        -height <= 2 * (rows_between(distance, height) * height + 49 * distance) <= height,
{
    let total = if distance <= 0 {
        2 * -distance * PIANO_ROWS + height
    } else {
        2 * distance * PIANO_ROWS + height
    };
    let by = 2 * height;
    vstd::arithmetic::div_mod::lemma_fundamental_div_mod(total, by);
    assert(0 <= total % by < by) by (nonlinear_arith)
        requires
            0 < by,
    ;
    let rows = total / by;
    assert(by * rows == 2 * (rows * height)) by (nonlinear_arith)
        requires
            by == 2 * height,
    ;
    assert((-rows) * height == -(rows * height)) by (nonlinear_arith);
}

/// The rows of a C carry its name and octave, the 60th being the fourth; no other row does.
pub proof fn rows_of_a_c_are_labelled(pitch: u8, octave: nat)
    ensures
        pitch == 12 * (octave + 1) ==> row_text(pitch) == Some("C"@ + decimal(octave)),
        pitch % 12 != 0 ==> row_text(pitch) is None,
{
}

/// Pitches and velocities go up to 127.
pub proof fn pitches_and_velocities_end_at_127(
    roll: PianoRoll,
    clip: RollClip,
    value: u8,
    event_index: usize,
)
    requires
        value > 127,
        roll.selected == Some(event_index),
        note_of(clip.notes@, event_index) is Some,
    ensures
        roll_after(roll, clip, RollEvent::NewPitch(value)).new_pitch == 127,
        roll_after(roll, clip, RollEvent::NewVelocity(value)).new_velocity == 127,
        roll_intent(roll, clip, RollEvent::SelectedVelocity(value)) matches Some(
            Intent::EditNote { velocity, .. },
        ) && velocity == 127,
{
}

} // verus!
