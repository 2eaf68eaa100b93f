//! Playing and recording notes with the computer keyboard.
//!
//! Keys that are held are remembered with the note they started, so that a release ends
//! that note whatever the layout or octave has become since. Times of a recording are
//! counted in thousandths of the shortest note, which is 1/960 of a beat.
use crate::instrument::KeyboardInstrumentStatus;
use crate::intents::Intent;
use crate::layout::{Key, Layout, PianoKey, Pitch};
use crate::text::{decimal, push_decimal};
use vstd::prelude::*;

verus! {

/// The length of the shortest note.
pub const SHORTEST_NOTE: u64 = 1_000;

/// The root of a keyboard that was just opened.
pub const DEFAULT_ROOT: u8 = 60;

/// The velocity of a keyboard that was just opened.
pub const DEFAULT_VELOCITY: u8 = 100;

/// A key that is held, and the note it started.
#[derive(Clone, Copy, Debug, PartialEq, Eq, Structural)]
pub struct HeldNote {
    pub key: PianoKey,
    pub pitch: Pitch,
    pub velocity: u8,
    /// When the note started, where it is recorded.
    pub start: Option<u64>,
}

/// A note of a recording.
#[derive(Clone, Copy, Debug, PartialEq, Eq, Structural)]
pub struct RecordedNote {
    pub start: u64,
    pub duration: u64,
    pub pitch: Pitch,
    pub velocity: u8,
}

/// A recording under way, or one that could not be saved. `G` names where it goes.
#[derive(Debug)]
pub struct Take<G> {
    pub target: G,
    pub notes: Vec<RecordedNote>,
    /// Where the recording began, and where it is.
    pub clock: TakeClock,
    /// The recording runs along with the transport.
    pub with_transport: bool,
}

/// What a recording is told of the transport.
#[derive(Clone, Copy, Debug, PartialEq, Eq, Structural)]
pub struct TransportPlace {
    pub playing: bool,
    /// In parts of a beat.
    pub playhead: i64,
    /// In thousandths of a beat per minute.
    pub tempo: u32,
}

/// What the keyboard tells the user.
#[derive(Debug)]
pub enum PianoMessage {
    NotSaved(String),
    SaveFirst,
    SelectClip,
    MoveCursor,
    MidiOnly,
}

/// The text of a message.
pub open spec fn message_text(message: PianoMessage) -> Seq<char> {
    match message {
        PianoMessage::NotSaved(error) => "Take not saved: "@ + error@,
        PianoMessage::SaveFirst => "Save or discard the previous take first."@,
        PianoMessage::SelectClip => "Select a MIDI clip to record."@,
        PianoMessage::MoveCursor => "Move the cursor into the selected clip."@,
        PianoMessage::MidiOnly => "Recording MIDI only · audio unavailable"@,
    }
}

impl PianoMessage {
    /// The text of the message.
    pub fn text(&self) -> (text: String)
        ensures
            text@ == message_text(*self),
    {
        match self {
            PianoMessage::NotSaved(error) => crate::text::joined(
                "Take not saved: ",
                error.as_str(),
            ),
            PianoMessage::SaveFirst => String::from_str("Save or discard the previous take first."),
            PianoMessage::SelectClip => String::from_str("Select a MIDI clip to record."),
            PianoMessage::MoveCursor => String::from_str("Move the cursor into the selected clip."),
            PianoMessage::MidiOnly => String::from_str("Recording MIDI only · audio unavailable"),
        }
    }
}

/// The keyboard.
#[derive(Debug)]
pub struct KeyboardPiano<G> {
    pub open: bool,
    pub root: u8,
    pub layout: Layout,
    pub velocity: u8,
    pub track: Option<u128>,
    pub held: Vec<HeldNote>,
    pub take: Option<Take<G>>,
    pub unsaved: Option<Take<G>>,
    pub message: Option<PianoMessage>,
}

/// What a key press or release calls for.
#[derive(Clone, Copy, Debug, PartialEq, Eq, Structural)]
pub enum PianoAction {
    Nothing,
    /// End a note.
    NoteOff(u8),
    /// End the recording and all notes.
    Finish,
    /// Move up or down an octave.
    Octave(bool),
    /// Start a note, then tell [`KeyboardPiano::strike`] whether it can be heard.
    Play { pitch: Pitch, velocity: u8 },
}

/// What a recording meets in the project and the transport.
#[derive(Clone, Copy, Debug)]
pub struct RecordingConditions {
    /// The transport still shows that it records.
    pub recording: bool,
    /// The selected clip is still the one that is recorded into.
    pub same_target: bool,
    pub tempo_changed: bool,
    pub playing: bool,
    /// The playhead went back.
    pub rewound: bool,
    /// The playhead is not where the recording is.
    pub drifted: bool,
}

/// Whether a key is held.
pub open spec fn holds(held: Seq<HeldNote>, key: PianoKey) -> bool {
    exists|i: int| 0 <= i < held.len() && (#[trigger] held[i]).key == key
}

/// No key is held twice.
pub open spec fn held_once(held: Seq<HeldNote>) -> bool {
    forall|i: int, j: int| 0 <= i < held.len() && 0 <= j < held.len() && i != j ==> held[i].key
        != held[j].key
}

/// How long a note lasted, if it ends at `end`.
pub open spec fn note_length(start: u64, end: u64) -> u64 {
    if end - start >= SHORTEST_NOTE {
        (end - start) as u64
    } else {
        SHORTEST_NOTE
    }
}

/// The note that a released key leaves in a recording.
pub open spec fn recorded(note: HeldNote, end: u64) -> RecordedNote {
    RecordedNote {
        start: note.start->0,
        duration: note_length(note.start->0, end),
        pitch: note.pitch,
        velocity: note.velocity,
    }
}

/// The notes of a recording after keys were released, in this order.
pub open spec fn with_released(
    notes: Seq<RecordedNote>,
    released: Seq<HeldNote>,
    end: u64,
) -> Seq<RecordedNote>
    decreases released.len(),
{
    if released.len() == 0 {
        notes
    } else {
        let before = with_released(notes, released.drop_last(), end);
        if released.last().start is Some {
            before.push(recorded(released.last(), end))
        } else {
            before
        }
    }
}

/// The place of the lowest note, the first of several.
pub open spec fn lowest(held: Seq<HeldNote>) -> int
    decreases held.len(),
{
    if held.len() <= 1 {
        0
    } else {
        let best = lowest(held.drop_last());
        if held.last().pitch.note < held[best].pitch.note {
            held.len() - 1
        } else {
            best
        }
    }
}

/// The order in which all keys are released: from the lowest note up, and keys with the
/// same note in the order in which they were pressed.
pub open spec fn release_order(held: Seq<HeldNote>) -> Seq<HeldNote>
    decreases held.len(),
{
    if held.len() == 0 {
        Seq::empty()
    } else {
        let place = lowest(held);
        if 0 <= place < held.len() {
            seq![held[place]] + release_order(held.remove(place))
        } else {
            Seq::empty()
        }
    }
}

proof fn lemma_lowest(held: Seq<HeldNote>)
    requires
        held.len() > 0,
    ensures
        0 <= lowest(held) < held.len(),
        forall|i: int|
            0 <= i < held.len() ==> held[lowest(held)].pitch.note <= (
            #[trigger] held[i]).pitch.note,
    decreases held.len(),
{
    if held.len() > 1 {
        let rest = held.drop_last();
        lemma_lowest(rest);
        assert forall|i: int| 0 <= i < held.len() implies held[lowest(held)].pitch.note <= (
        #[trigger] held[i]).pitch.note by {
            if i < held.len() - 1 {
                assert(rest[i] == held[i]);
            }
        }
    }
}

fn find_lowest(held: &Vec<HeldNote>) -> (place: usize)
    requires
        held.len() > 0,
    ensures
        place == lowest(held@),
        place < held.len(),
{
    let mut best: usize = 0;
    let mut index: usize = 1;
    assert(held@.take(1).len() == 1);
    while index < held.len()
        invariant
            1 <= index <= held.len(),
            best < index,
            best == lowest(held@.take(index as int)),
        decreases held.len() - index,
    {
        assert(held@.take(index + 1).drop_last() =~= held@.take(index as int));
        if held[index].pitch.note < held[best].pitch.note {
            best = index;
        }
        index += 1;
    }
    assert(held@.take(held.len() as int) =~= held@);
    best
}

fn find_held(held: &Vec<HeldNote>, key: PianoKey) -> (place: Option<usize>)
    ensures
        place is None ==> !holds(held@, key),
        place matches Some(found) ==> found < held.len() && held[found as int].key == key,
{
    let mut index: usize = 0;
    while index < held.len()
        invariant
            index <= held.len(),
            forall|i: int| 0 <= i < index ==> (#[trigger] held@[i]).key != key,
        decreases held.len() - index,
    {
        if held[index].key == key {
            return Some(index);
        }
        index += 1;
    }
    None
}

/// Whether a recording must end: what it was made for has changed under it.
pub open spec fn must_end(with_transport: bool, now: RecordingConditions) -> bool {
    ||| !now.recording
    ||| !now.same_target
    ||| now.tempo_changed
    ||| with_transport && (!now.playing || now.rewound || now.drifted)
    ||| !with_transport && now.playing
}

/// Whether a recording must end.
pub fn is_interrupted(with_transport: bool, now: RecordingConditions) -> (ends: bool)
    ensures
        ends == must_end(with_transport, now),
{
    !now.recording || !now.same_target || now.tempo_changed || (with_transport && (!now.playing
        || now.rewound || now.drifted)) || (!with_transport && now.playing)
}

/// What a recording remembers of the transport: positions in parts of a beat, the tempo in
/// thousandths of a beat per minute, times in nanoseconds.
#[derive(Clone, Copy, Debug, PartialEq, Eq, Structural)]
pub struct TakeClock {
    /// When the recording began.
    pub started: u64,
    /// Where in the clip it began.
    pub start_beat: u64,
    pub tempo: u32,
    /// Where the clip begins.
    pub clip_start: i64,
    /// Where the playhead was at the last look.
    pub last_playhead: i64,
}

impl TakeClock {
    /// A recording into a clip that begins at `clip_start` began at `now`.
    pub open spec fn begins(self, now: u64, clip_start: i64, transport: TransportPlace) -> bool {
        &&& self.started == now
        &&& self.start_beat == crate::pages::greatest(transport.playhead - clip_start, 0)
        &&& self.tempo == transport.tempo
        &&& self.clip_start == clip_start
        &&& self.last_playhead == transport.playhead
    }

    /// The clock of a recording that begins now, into a clip that begins at `clip_start`: where
    /// the playhead is in the clip, or at its start.
    pub fn new(now: u64, clip_start: i64, playhead: i64, tempo: u32) -> (clock: Self)
        ensures
            clock.started == now,
            clock.start_beat == crate::pages::greatest(playhead - clip_start, 0),
            clock.tempo == tempo,
            clock.clip_start == clip_start,
            clock.last_playhead == playhead,
    {
        let start_beat: u64 = if playhead > clip_start {
            (playhead as i128 - clip_start as i128) as u64
        } else {
            0
        };
        TakeClock { started: now, start_beat, tempo, clip_start, last_playhead: playhead }
    }

    /// Where in the clip the recording is, rounded down, as far as positions are counted.
    pub open spec fn place(self, now: u64) -> int {
        let elapsed = if now <= self.started {
            0
        } else {
            now - self.started
        };
        crate::pages::least(
            self.start_beat + 16 * (elapsed * self.tempo) / 1_000_000_000,
            u64::MAX as int,
        )
    }

    /// Where in the clip the recording is.
    pub fn beat(&self, now: u64) -> (beat: u64)
        ensures
            beat == self.place(now),
    {
        let elapsed: u64 = now.saturating_sub(self.started);
        assert(0 <= elapsed * self.tempo <= 0xffff_ffff_ffff_ffff * 0xffff_ffff) by (
        nonlinear_arith)
            requires
                0 <= elapsed <= 0xffff_ffff_ffff_ffff,
                0 <= self.tempo <= 0xffff_ffff,
        ;
        let passed: u128 = 16 * (elapsed as u128 * self.tempo as u128) / 1_000_000_000;
        let place: u128 = self.start_beat as u128 + passed;
        if place > u64::MAX as u128 {
            u64::MAX
        } else {
            place as u64
        }
    }

    /// What the recording meets in a transport at `playhead`: the tempo may differ by a
    /// thousandth, the playhead may go back by a twentieth of a beat, and be off by three
    /// quarters of one.
    pub open spec fn meets(
        self,
        recording: bool,
        same_target: bool,
        playing: bool,
        tempo: u32,
        playhead: i64,
        now: u64,
    ) -> RecordingConditions {
        let off = playhead - self.clip_start - self.place(now);
        RecordingConditions {
            recording,
            same_target,
            tempo_changed: tempo - self.tempo > 1 || self.tempo - tempo > 1,
            playing,
            rewound: playhead + 48_000 < self.last_playhead,
            drifted: off > 720_000 || -off > 720_000,
        }
    }

    /// What the recording meets in the transport.
    pub fn conditions(
        &self,
        recording: bool,
        same_target: bool,
        playing: bool,
        tempo: u32,
        playhead: i64,
        now: u64,
    ) -> (conditions: RecordingConditions)
        ensures
            conditions == self.meets(recording, same_target, playing, tempo, playhead, now),
    {
        let faster: i64 = tempo as i64 - self.tempo as i64;
        let ahead: i128 = playhead as i128 - self.last_playhead as i128;
        let off: i128 = playhead as i128 - self.clip_start as i128 - self.beat(now) as i128;
        RecordingConditions {
            recording,
            same_target,
            tempo_changed: faster > 1 || -faster > 1,
            playing,
            rewound: ahead + 48_000 < 0,
            drifted: off > 720_000 || -off > 720_000,
        }
    }
}

/// The notes of an optional take.
pub open spec fn notes_of<G>(take: Option<Take<G>>) -> Seq<RecordedNote> {
    match take {
        Some(take) => take.notes@,
        None => Seq::empty(),
    }
}

/// Where an optional take is in its clip.
pub open spec fn beat_of<G>(take: Option<Take<G>>, now: u64) -> u64 {
    match take {
        Some(take) => take.clock.place(now) as u64,
        None => 0,
    }
}

/// Whether two optional takes differ in their notes at most.
pub open spec fn same_recording<G>(a: Option<Take<G>>, b: Option<Take<G>>) -> bool {
    match (a, b) {
        (Some(left), Some(right)) => left.target == right.target && left.clock == right.clock
            && left.with_transport == right.with_transport,
        (None, None) => true,
        _ => false,
    }
}

impl<G> KeyboardPiano<G> {
    /// What holds of the keyboard at all times.
    pub open spec fn well_formed(self) -> bool {
        &&& held_once(self.held@)
        &&& self.root <= self.layout.highest_root()
        &&& forall|i: int| 0 <= i < self.held.len() ==> (#[trigger] self.held@[i]).pitch.note <= 127
    }

    /// Everything but the held keys and the notes of the recording is the same.
    pub open spec fn same_but_notes(self, other: Self) -> bool {
        &&& self.open == other.open
        &&& self.root == other.root
        &&& self.layout == other.layout
        &&& self.velocity == other.velocity
        &&& self.track == other.track
        &&& self.unsaved == other.unsaved
        &&& self.message == other.message
        &&& same_recording(self.take, other.take)
    }

    /// A closed keyboard.
    pub fn new() -> (piano: Self)
        ensures
            !piano.open,
            piano.root == DEFAULT_ROOT,
            piano.layout == Layout::Piano,
            piano.velocity == DEFAULT_VELOCITY,
            piano.track is None,
            piano.held@ == Seq::<HeldNote>::empty(),
            piano.take is None,
            piano.unsaved is None,
            piano.message is None,
            piano.well_formed(),
    {
        KeyboardPiano {
            open: false,
            root: DEFAULT_ROOT,
            layout: Layout::Piano,
            velocity: DEFAULT_VELOCITY,
            track: None,
            held: Vec::new(),
            take: None,
            unsaved: None,
            message: None,
        }
    }

    /// Whether a key is held.
    pub fn is_held(&self, key: PianoKey) -> (held: bool)
        ensures
            held == holds(self.held@, key),
    {
        match find_held(&self.held, key) {
            Some(place) => {
                assert(self.held@[place as int].key == key);
                true
            },
            None => false,
        }
    }

    /// Where the recording is in its clip.
    fn beat(&self, now: u64) -> (beat: u64)
        ensures
            beat == beat_of(self.take, now),
    {
        match &self.take {
            Some(take) => take.clock.beat(now),
            None => 0,
        }
    }

    fn record(&mut self, note: HeldNote, end: u64)
        ensures
            final(self).held == old(self).held,
            final(self).same_but_notes(*old(self)),
            notes_of(final(self).take) == (if old(self).take is Some {
                with_released(notes_of(old(self).take), seq![note], end)
            } else {
                Seq::empty()
            }),
    {
        proof {
            reveal_with_fuel(with_released, 2);
            assert(seq![note].drop_last() =~= Seq::<HeldNote>::empty());
        }
        if let Some(start) = note.start {
            let mut take = None;
            std::mem::swap(&mut take, &mut self.take);
            if let Some(mut recording) = take {
                let duration: u64 = if end >= start && end - start >= SHORTEST_NOTE {
                    end - start
                } else {
                    SHORTEST_NOTE
                };
                recording.notes.push(
                    RecordedNote { start, duration, pitch: note.pitch, velocity: note.velocity },
                );
                self.take = Some(recording);
            }
        }
    }

    /// Releases a key: the note that it started ends, and joins the recording if it started
    /// in one. A key that is not held has nothing to end.
    pub fn release(&mut self, key: PianoKey, now: u64) -> (note: Option<u8>)
        requires
            old(self).well_formed(),
        ensures
            note is Some <==> holds(old(self).held@, key),
            note is None ==> *final(self) == *old(self),
            note is Some ==> exists|place: int|
                {
                    &&& 0 <= place < old(self).held.len()
                    &&& (#[trigger] old(self).held@[place]).key == key
                    &&& note == Some(old(self).held@[place].pitch.note)
                    &&& final(self).held@ == old(self).held@.remove(place)
                    &&& notes_of(final(self).take) == (if old(self).take is Some {
                        with_released(
                            notes_of(old(self).take),
                            seq![old(self).held@[place]],
                            beat_of(old(self).take, now),
                        )
                    } else {
                        Seq::empty()
                    })
                },
            final(self).same_but_notes(*old(self)),
            final(self).well_formed(),
            !holds(final(self).held@, key),
    {
        match find_held(&self.held, key) {
            None => None,
            Some(place) => {
                let ghost before = self.held@;
                let end: u64 = self.beat(now);
                let note = self.held.remove(place);
                self.record(note, end);
                assert(before[place as int].key == key);
                assert(held_once(self.held@)) by {
                    assert forall|i: int, j: int|
                        0 <= i < self.held@.len() && 0 <= j < self.held@.len() && i != j implies
                        self.held@[i].key != self.held@[j].key by {
                        let a = if i < place {
                            i
                        } else {
                            i + 1
                        };
                        let b = if j < place {
                            j
                        } else {
                            j + 1
                        };
                        assert(before[a].key != before[b].key);
                    }
                }
                assert(!holds(self.held@, key)) by {
                    assert forall|i: int| 0 <= i < self.held@.len() implies (
                    #[trigger] self.held@[i]).key != key by {
                        let a = if i < place {
                            i
                        } else {
                            i + 1
                        };
                        assert(before[a].key != before[place as int].key);
                    }
                }
                assert forall|i: int| 0 <= i < self.held@.len() implies (
                #[trigger] self.held@[i]).pitch.note <= 127 by {
                    let a = if i < place {
                        i
                    } else {
                        i + 1
                    };
                    assert(before[a].pitch.note <= 127);
                }
                Some(note.pitch.note)
            },
        }
    }

    /// Releases all keys, from the lowest note up.
    pub fn release_all(&mut self, now: u64)
        requires
            old(self).well_formed(),
        ensures
            final(self).held@ == Seq::<HeldNote>::empty(),
            final(self).same_but_notes(*old(self)),
            notes_of(final(self).take) == old(self).notes_at_end(now),
            final(self).well_formed(),
    {
        let ghost all = release_order(self.held@);
        let ghost notes = notes_of(self.take);
        let ghost mut done = Seq::<HeldNote>::empty();
        let ghost recording = self.take is Some;
        assert(done + all =~= all);
        let end: u64 = self.beat(now);
        assert(with_released(notes, done, end) == notes);
        while self.held.len() > 0
            invariant
                done + release_order(self.held@) == all,
                recording == old(self).take is Some,
                notes == notes_of(old(self).take),
                notes_of(self.take) == (if recording {
                    with_released(notes, done, end)
                } else {
                    Seq::empty()
                }),
                self.same_but_notes(*old(self)),
                self.root <= self.layout.highest_root(),
            decreases self.held.len(),
        {
            let place: usize = find_lowest(&self.held);
            let ghost before = self.held@;
            let ghost so_far = done;
            let note = self.held.remove(place);
            self.record(note, end);
            proof {
                let longer = so_far.push(note);
                assert(release_order(before) == seq![note] + release_order(before.remove(
                    place as int,
                )));
                assert(longer + release_order(self.held@) =~= so_far + release_order(before));
                reveal_with_fuel(with_released, 2);
                assert(longer.drop_last() =~= so_far);
                assert(seq![note].drop_last() =~= Seq::<HeldNote>::empty());
                done = longer;
            }
        }
        assert(release_order(self.held@) =~= Seq::<HeldNote>::empty());
        assert(done =~= all);
        assert(self.held@ =~= Seq::<HeldNote>::empty());
    }

    /// Ends the recording and all notes. The take, if there is one, is the caller's to save;
    /// [`Self::saved`] hears what came of it.
    pub fn finish(&mut self, now: u64) -> (take: Option<Take<G>>)
        requires
            old(self).well_formed(),
        ensures
            final(self).held@ == Seq::<HeldNote>::empty(),
            final(self).take is None,
            same_recording(take, old(self).take),
            notes_of(take) == old(self).notes_at_end(now),
            final(self).open == old(self).open,
            final(self).root == old(self).root,
            final(self).layout == old(self).layout,
            final(self).velocity == old(self).velocity,
            final(self).track == old(self).track,
            final(self).unsaved == old(self).unsaved,
            final(self).message == old(self).message,
            final(self).well_formed(),
    {
        self.release_all(now);
        self.take.take()
    }

    /// Hears what came of saving a take. One that could not be saved is kept for another try.
    pub fn saved(&mut self, take: Take<G>, outcome: Result<(), String>)
        ensures
            final(self).message == (match outcome {
                Ok(_) => None,
                Err(error) => Some(PianoMessage::NotSaved(error)),
            }),
            final(self).unsaved == (match outcome {
                Ok(_) => old(self).unsaved,
                Err(_) => Some(take),
            }),
            final(self).open == old(self).open,
            final(self).root == old(self).root,
            final(self).layout == old(self).layout,
            final(self).velocity == old(self).velocity,
            final(self).track == old(self).track,
            final(self).held == old(self).held,
            final(self).take == old(self).take,
    {
        match outcome {
            Ok(_) => {
                self.message = None;
            },
            Err(error) => {
                self.message = Some(PianoMessage::NotSaved(error));
                self.unsaved = Some(take);
            },
        }
    }

    /// Why a recording cannot start, if it cannot.
    pub open spec fn recording_obstacle(
        self,
        target: Option<G>,
        clip_start: i64,
        transport: TransportPlace,
    ) -> Option<PianoMessage> {
        if self.unsaved is Some {
            Some(PianoMessage::SaveFirst)
        } else if target is None {
            Some(PianoMessage::SelectClip)
        } else if transport.playing && transport.playhead < clip_start {
            Some(PianoMessage::MoveCursor)
        } else {
            None
        }
    }

    /// Starts a recording into `target`, a clip that begins at `clip_start`, where nothing is
    /// recorded yet. `true` means that it started. A transport that plays must have come to the
    /// clip.
    pub fn start_recording(
        &mut self,
        target: Option<G>,
        clip_start: i64,
        track: Option<u128>,
        transport: TransportPlace,
        now: u64,
    ) -> (started: bool)
        requires
            old(self).well_formed(),
            old(self).take is None,
        ensures
            started == (old(self).recording_obstacle(target, clip_start, transport) is None),
            final(self).open,
            final(self).root == old(self).root,
            final(self).layout == old(self).layout,
            final(self).velocity == old(self).velocity,
            final(self).unsaved == old(self).unsaved,
            final(self).message == old(self).recording_obstacle(target, clip_start, transport),
            !started ==> final(self).take is None && final(self).held == old(self).held && final(
                self
            ).track == old(self).track,
            started ==> {
                &&& final(self).held@ == Seq::<HeldNote>::empty()
                &&& final(self).track == track
                &&& final(self).take is Some
                &&& final(self).take->0.target == target->0
                &&& final(self).take->0.clock.begins(now, clip_start, transport)
                &&& final(self).take->0.notes@ == Seq::<RecordedNote>::empty()
                &&& final(self).take->0.with_transport == transport.playing
            },
            final(self).well_formed(),
    {
        self.open = true;
        if self.unsaved.is_some() {
            self.message = Some(PianoMessage::SaveFirst);
            return false;
        }
        match target {
            None => {
                self.message = Some(PianoMessage::SelectClip);
                false
            },
            Some(target) => {
                if transport.playing && transport.playhead < clip_start {
                    self.message = Some(PianoMessage::MoveCursor);
                    return false;
                }
                self.release_all(now);
                self.track = track;
                self.message = None;
                let clock = TakeClock::new(
                    now,
                    clip_start,
                    transport.playhead,
                    transport.tempo,
                );
                self.take = Some(
                    Take { target, notes: Vec::new(), clock, with_transport: transport.playing },
                );
                true
            },
        }
    }

    /// Gives up a take that could not be saved.
    pub fn discard_unsaved(&mut self)
        ensures
            final(self).unsaved is None,
            final(self).message is None,
            final(self).held == old(self).held,
            final(self).take == old(self).take,
            final(self).open == old(self).open,
            final(self).root == old(self).root,
            final(self).layout == old(self).layout,
            final(self).velocity == old(self).velocity,
            final(self).track == old(self).track,
    {
        self.unsaved = None;
        self.message = None;
    }

    /// Whether the notes and the recording must end in this frame: the track changed, or the
    /// keyboard lost its hold on the keys while something sounds or is recorded.
    pub fn must_finish(
        &self,
        track: Option<u128>,
        focused: bool,
        blocked: bool,
        interrupted: bool,
    ) -> (finish: bool)
        ensures
            finish == (track != self.track || ((!focused || blocked || interrupted) && (
            self.held.len() > 0 || self.take is Some))),
    {
        let same_track = match (track, self.track) {
            (Some(left), Some(right)) => left == right,
            (None, None) => true,
            _ => false,
        };
        !same_track || ((!focused || blocked || interrupted) && (self.held.len() > 0
            || self.take.is_some()))
    }

    /// Whether the recording, if there is one, cannot go on: `recording` says that the transport
    /// still records, `same_target` that the recording's clip is still the one to record into.
    pub fn interrupted(
        &self,
        recording: bool,
        same_target: bool,
        transport: TransportPlace,
        now: u64,
    ) -> (ends: bool)
        ensures
            ends == (self.take matches Some(take) && must_end(
                take.with_transport,
                take.clock.meets(
                    recording,
                    same_target,
                    transport.playing,
                    transport.tempo,
                    transport.playhead,
                    now,
                ),
            )),
    {
        match &self.take {
            Some(take) => is_interrupted(
                take.with_transport,
                take.clock.conditions(
                    recording,
                    same_target,
                    transport.playing,
                    transport.tempo,
                    transport.playhead,
                    now,
                ),
            ),
            None => false,
        }
    }

    /// Remembers where the playhead was at this look.
    pub fn follow(&mut self, playhead: i64)
        ensures
            *final(self) == (KeyboardPiano {
                take: match old(self).take {
                    Some(take) => Some(
                        Take { clock: TakeClock { last_playhead: playhead, ..take.clock }, ..take },
                    ),
                    None => None,
                },
                ..*old(self)
            }),
    {
        let mut take = None;
        std::mem::swap(&mut take, &mut self.take);
        if let Some(mut recording) = take {
            recording.clock.last_playhead = playhead;
            self.take = Some(recording);
        }
    }

    /// Whether keys play notes in this frame.
    pub fn is_active(&self, track: Option<u128>, focused: bool, blocked: bool) -> (active: bool)
        ensures
            active == (self.open && focused && !blocked && track is Some),
    {
        self.open && focused && !blocked && track.is_some()
    }

    /// Whether the keyboard takes a key from the shortcuts: it ends a note, or it is part of
    /// the layout and pressed without modifiers.
    pub fn claims(&self, key: Key, pressed: bool, modified: bool) -> (claimed: bool)
        ensures
            claimed <==> (!pressed && holds(self.held@, PianoKey::Key(key))) || (!modified && (
            key == Key::Escape || self.layout.moves_octave(key) || self.plays(
                PianoKey::Key(key),
            ))),
    {
        if !pressed && self.is_held(PianoKey::Key(key)) {
            return true;
        }
        let mapped = self.layout.pitch(PianoKey::Key(key), self.root).is_some()
            || self.layout.octave_key(key).is_some() || key == Key::Escape;
        mapped && !modified
    }

    /// Whether a key plays a note at the present root.
    pub open spec fn plays(self, key: PianoKey) -> bool {
        exists|sevenths: int|
            crate::layout::plays_above_root(self.layout, key, sevenths) && (7 * self.root + sevenths
                + 3) / 7 <= 127
    }

    /// Decides what a key calls for. Releases come first; a key that repeats or is held
    /// already calls for nothing.
    pub fn decide(&mut self, key: PianoKey, pressed: bool, repeat: bool, now: u64) -> (action:
        PianoAction)
        requires
            old(self).well_formed(),
        ensures
            final(self).well_formed(),
            final(self).same_but_notes(*old(self)),
            pressed ==> *final(self) == *old(self),
            !pressed && !holds(old(self).held@, key) ==> *final(self) == *old(self) && action
                == PianoAction::Nothing,
            !pressed && holds(old(self).held@, key) ==> !holds(final(self).held@, key) && exists|
                place: int,
            |
                {
                    &&& 0 <= place < old(self).held.len()
                    &&& (#[trigger] old(self).held@[place]).key == key
                    &&& action == PianoAction::NoteOff(old(self).held@[place].pitch.note)
                    &&& final(self).held@ == old(self).held@.remove(place)
                    &&& notes_of(final(self).take) == (if old(self).take is Some {
                        with_released(
                            notes_of(old(self).take),
                            seq![old(self).held@[place]],
                            beat_of(old(self).take, now),
                        )
                    } else {
                        Seq::empty()
                    })
                },
            pressed && (repeat || holds(old(self).held@, key)) ==> action == PianoAction::Nothing,
            pressed && !repeat && !holds(old(self).held@, key) ==> {
                if key == PianoKey::Key(Key::Escape) {
                    action == PianoAction::Finish
                } else if key is Key && old(self).layout.moves_octave(key->Key_0) {
                    action == PianoAction::Octave(
                        key->Key_0 == Key::PageUp || key->Key_0 == Key::X,
                    )
                } else if old(self).plays(key) {
                    &&& action is Play
                    &&& action->velocity == old(self).velocity
                    &&& forall|sevenths: int| #[trigger]
                        crate::layout::plays_above_root(old(self).layout, key, sevenths)
                            ==> action->pitch == crate::layout::nearest(
                            7 * old(self).root + sevenths,
                        )
                } else {
                    action == PianoAction::Nothing
                }
            },
    {
        if !pressed {
            return match self.release(key, now) {
                Some(note) => PianoAction::NoteOff(note),
                None => PianoAction::Nothing,
            };
        }
        if repeat || self.is_held(key) {
            return PianoAction::Nothing;
        }
        if let PianoKey::Key(letter) = key {
            if letter == Key::Escape {
                return PianoAction::Finish;
            }
            if let Some(up) = self.layout.octave_key(letter) {
                return PianoAction::Octave(up);
            }
        }
        match self.layout.pitch(key, self.root) {
            Some(pitch) => PianoAction::Play { pitch, velocity: self.velocity },
            None => PianoAction::Nothing,
        }
    }

    /// Holds a key that was told to start a note. A note that cannot be heard is held only
    /// where it is recorded, and the user is told.
    pub fn strike(&mut self, key: PianoKey, pitch: Pitch, velocity: u8, heard: bool, now: u64) -> (
    held: bool)
        requires
            old(self).well_formed(),
            !holds(old(self).held@, key),
            pitch.note <= 127,
        ensures
            held == (heard || old(self).take is Some),
            final(self).held@ == (if held {
                old(self).held@.push(
                    HeldNote {
                        key,
                        pitch,
                        velocity,
                        start: if old(self).take is Some {
                            Some(beat_of(old(self).take, now))
                        } else {
                            None
                        },
                    },
                )
            } else {
                old(self).held@
            }),
            final(self).message == (if !heard && old(self).take is Some {
                Some(PianoMessage::MidiOnly)
            } else {
                old(self).message
            }),
            final(self).open == old(self).open,
            final(self).root == old(self).root,
            final(self).layout == old(self).layout,
            final(self).velocity == old(self).velocity,
            final(self).track == old(self).track,
            final(self).take == old(self).take,
            final(self).unsaved == old(self).unsaved,
            final(self).well_formed(),
    {
        if !heard {
            if self.take.is_none() {
                return false;
            }
            self.message = Some(PianoMessage::MidiOnly);
        }
        let start: Option<u64> = if self.take.is_some() {
            Some(self.beat(now))
        } else {
            None
        };
        let ghost before = self.held@;
        self.held.push(HeldNote { key, pitch, velocity, start });
        assert(held_once(self.held@)) by {
            assert forall|i: int, j: int|
                0 <= i < self.held@.len() && 0 <= j < self.held@.len() && i != j implies
                self.held@[i].key != self.held@[j].key by {
                if i < before.len() && j < before.len() {
                    assert(before[i].key != before[j].key);
                } else if i < before.len() {
                    assert(before[i].key != key);
                } else {
                    assert(before[j].key != key);
                }
            }
        }
        true
    }

    /// Moves the keyboard up or down an octave, after all keys were released.
    pub fn change_octave(&mut self, up: bool, now: u64)
        requires
            old(self).well_formed(),
        ensures
            final(self).held@ == Seq::<HeldNote>::empty(),
            final(self).root == (if up {
                crate::pages::least(old(self).root + 12, old(self).layout.highest_root())
            } else {
                crate::pages::greatest(old(self).root - 12, 0)
            }),
            final(self).layout == old(self).layout,
            final(self).open == old(self).open,
            final(self).velocity == old(self).velocity,
            final(self).track == old(self).track,
            final(self).unsaved == old(self).unsaved,
            final(self).message == old(self).message,
            same_recording(final(self).take, old(self).take),
            notes_of(final(self).take) == old(self).notes_at_end(now),
            final(self).well_formed(),
    {
        self.release_all(now);
        if up {
            let highest: u8 = self.layout.max_root();
            let raised: u8 = self.root + 12;
            self.root = if raised <= highest {
                raised
            } else {
                highest
            };
        } else {
            self.root = self.root.saturating_sub(12);
        }
    }

    /// Changes the layout, after all keys were released. The root moves down where the new
    /// layout does not reach as high.
    pub fn set_layout(&mut self, layout: Layout, now: u64)
        requires
            old(self).well_formed(),
        ensures
            old(self).layout == layout ==> *final(self) == *old(self),
            old(self).layout != layout ==> {
                &&& final(self).held@ == Seq::<HeldNote>::empty()
                &&& final(self).layout == layout
                &&& final(self).root == crate::pages::least(
                    old(self).root as int,
                    layout.highest_root(),
                )
                &&& notes_of(final(self).take) == old(self).notes_at_end(now)
            },
            final(self).open == old(self).open,
            final(self).velocity == old(self).velocity,
            final(self).track == old(self).track,
            final(self).unsaved == old(self).unsaved,
            final(self).message == old(self).message,
            same_recording(final(self).take, old(self).take),
            final(self).well_formed(),
    {
        if self.layout == layout {
            return;
        }
        self.release_all(now);
        self.layout = layout;
        let highest: u8 = layout.max_root();
        if self.root > highest {
            self.root = highest;
        }
    }

    /// Opens the keyboard, or closes it and gives the take that ends with it.
    pub fn toggle_keyboard_piano(&mut self, now: u64) -> (take: Option<Take<G>>)
        requires
            old(self).well_formed(),
        ensures
            final(self).open == !old(self).open,
            !old(self).open ==> take is None && final(self).held == old(self).held && final(
                self
            ).take == old(self).take,
            old(self).open ==> {
                &&& final(self).held@ == Seq::<HeldNote>::empty()
                &&& final(self).take is None
                &&& same_recording(take, old(self).take)
                &&& notes_of(take) == old(self).notes_at_end(now)
            },
            final(self).same_but_play(*old(self)),
            final(self).well_formed(),
    {
        if self.open {
            let take = self.finish(now);
            self.open = false;
            take
        } else {
            self.open = true;
            None
        }
    }

    /// Makes ready for what the arrangement asks for: however little the playhead is to be
    /// moved, a recording ends before.
    pub fn before_timeline_action(&mut self, action: Intent, now: u64) -> (take: Option<Take<G>>)
        requires
            old(self).well_formed(),
        ensures
            action is Seek && old(self).take is Some ==> {
                &&& final(self).held@ == Seq::<HeldNote>::empty()
                &&& final(self).take is None
                &&& same_recording(take, old(self).take)
                &&& notes_of(take) == old(self).notes_at_end(now)
                &&& final(self).open == old(self).open
                &&& final(self).same_but_play(*old(self))
            },
            !(action is Seek && old(self).take is Some) ==> take is None && *final(self) == *old(
                self,
            ),
            final(self).well_formed(),
    {
        match action {
            Intent::Seek(_) => {
                if self.take.is_some() {
                    self.finish(now)
                } else {
                    None
                }
            },
            _ => None,
        }
    }

    /// Ends the recording, or starts one. The keyboard opens in any case.
    pub fn toggle_keyboard_recording(
        &mut self,
        target: Option<G>,
        clip_start: i64,
        track: Option<u128>,
        transport: TransportPlace,
        now: u64,
    ) -> (toggle: RecordingToggle<G>)
        requires
            old(self).well_formed(),
        ensures
            final(self).open,
            match old(self).take {
                Some(_) => toggle matches RecordingToggle::Finished(take) && {
                    &&& same_recording(Some(take), old(self).take)
                    &&& take.notes@ == old(self).notes_at_end(now)
                    &&& final(self).held@ == Seq::<HeldNote>::empty()
                    &&& final(self).take is None
                    &&& final(self).same_but_play(*old(self))
                },
                None => {
                    let obstacle = old(self).recording_obstacle(target, clip_start, transport);
                    &&& toggle is Refused <==> obstacle is Some
                    &&& toggle is Started <==> obstacle is None
                    &&& final(self).message == obstacle
                    &&& final(self).root == old(self).root
                    &&& final(self).layout == old(self).layout
                    &&& final(self).velocity == old(self).velocity
                    &&& final(self).unsaved == old(self).unsaved
                    &&& toggle is Refused ==> {
                        &&& final(self).take is None
                        &&& final(self).held == old(self).held
                        &&& final(self).track == old(self).track
                    }
                    &&& toggle is Started ==> {
                        &&& final(self).held@ == Seq::<HeldNote>::empty()
                        &&& final(self).track == track
                        &&& final(self).take is Some
                        &&& final(self).take->0.target == target->0
                        &&& final(self).take->0.clock.begins(now, clip_start, transport)
                        &&& final(self).take->0.notes@ == Seq::<RecordedNote>::empty()
                        &&& final(self).take->0.with_transport == transport.playing
                    }
                },
            },
            final(self).well_formed(),
    {
        if self.take.is_some() {
            let take = self.finish(now);
            self.open = true;
            match take {
                Some(take) => RecordingToggle::Finished(take),
                None => RecordingToggle::Refused,
            }
        } else if self.start_recording(target, clip_start, track, transport, now) {
            RecordingToggle::Started
        } else {
            RecordingToggle::Refused
        }
    }

    /// The notes that the recording has once all keys are released.
    pub open spec fn notes_at_end(self, now: u64) -> Seq<RecordedNote> {
        if self.take is Some {
            with_released(
                notes_of(self.take),
                release_order(self.held@),
                beat_of(self.take, now),
            )
        } else {
            Seq::empty()
        }
    }

    /// Everything but what is played and recorded, and whether the keyboard is open, is the
    /// same.
    pub open spec fn same_but_play(self, other: Self) -> bool {
        &&& self.root == other.root
        &&& self.layout == other.layout
        &&& self.velocity == other.velocity
        &&& self.track == other.track
        &&& self.unsaved == other.unsaved
        &&& self.message == other.message
    }

    /// Chooses how hard keys are struck.
    pub fn set_velocity(&mut self, velocity: u8)
        ensures
            *final(self) == (KeyboardPiano {
                velocity: if velocity < 1 {
                    1
                } else if velocity > 127 {
                    127
                } else {
                    velocity
                },
                ..*old(self)
            }),
    {
        self.velocity = if velocity < 1 {
            1
        } else if velocity > 127 {
            127
        } else {
            velocity
        };
    }

    /// Hands out a take that could not be saved, for another try.
    pub fn retry(&mut self) -> (take: Option<Take<G>>)
        ensures
            take == old(self).unsaved,
            *final(self) == (KeyboardPiano { unsaved: None, ..*old(self) }),
    {
        self.unsaved.take()
    }

    /// Whether keys that the window system keeps to itself are asked for: the grid needs them.
    pub fn captures(&self, has_track: bool, focused: bool, blocked: bool) -> (yes: bool)
        ensures
            yes == (self.open && self.layout != Layout::Piano && has_track && focused && !blocked),
    {
        self.open && self.layout != Layout::Piano && has_track && focused && !blocked
    }

    /// The text of the button that records.
    pub fn record_label(&self) -> (label: &'static str)
        ensures
            label@ == if self.take is Some {
                "■ Finish"@
            } else {
                "● Record"@
            },
    {
        if self.take.is_some() {
            "■ Finish"
        } else {
            "● Record"
        }
    }
}

/// What came of the button that records.
#[derive(Debug)]
pub enum RecordingToggle<G> {
    /// A recording ended; it is to be saved.
    Finished(Take<G>),
    Started,
    Refused,
}

/// What the keyboard shows of its instrument.
#[derive(Clone, Copy, Debug, PartialEq, Eq, Structural)]
pub enum InstrumentRemark {
    Nothing,
    /// No track takes notes: select a clip.
    SelectClip,
    /// The instrument has no sounds: offer to choose one.
    ChooseSample,
    /// The sound cannot be had.
    Unavailable,
    Loading,
}

/// What the keyboard shows of the instrument of a track. `empty` tells whether it has no
/// sounds; the rest is known only over a project that is open.
pub fn keyboard_remark(
    has_track: bool,
    empty: bool,
    status: &Option<KeyboardInstrumentStatus>,
) -> (remark: InstrumentRemark)
    ensures
        remark == (if !has_track {
            InstrumentRemark::SelectClip
        } else if empty {
            InstrumentRemark::ChooseSample
        } else {
            match *status {
                None => InstrumentRemark::Nothing,
                Some(status) => if status.error is Some {
                    InstrumentRemark::Unavailable
                } else if status.loading {
                    InstrumentRemark::Loading
                } else {
                    InstrumentRemark::Nothing
                },
            }
        }),
{
    if !has_track {
        return InstrumentRemark::SelectClip;
    }
    if empty {
        return InstrumentRemark::ChooseSample;
    }
    match status {
        None => InstrumentRemark::Nothing,
        Some(status) => if status.error.is_some() {
            InstrumentRemark::Unavailable
        } else if status.loading {
            InstrumentRemark::Loading
        } else {
            InstrumentRemark::Nothing
        },
    }
}

/// Releasing all keys releases each of them once.
pub proof fn release_order_is_a_reordering(held: Seq<HeldNote>)
    ensures
        release_order(held).to_multiset() == held.to_multiset(),
    decreases held.len(),
{
    broadcast use vstd::seq_lib::group_to_multiset_ensures;

    if held.len() > 0 {
        lemma_lowest(held);
        let place = lowest(held);
        let rest = held.remove(place);
        release_order_is_a_reordering(rest);
        vstd::seq_lib::lemma_multiset_commutative(seq![held[place]], release_order(rest));
        assert(seq![held[place]].to_multiset() =~= vstd::multiset::Multiset::singleton(
            held[place],
        )) by {
            assert(Seq::<HeldNote>::empty().push(held[place]) =~= seq![held[place]]);
        }
        assert(release_order(held).to_multiset() =~= held.to_multiset());
    } else {
        assert(release_order(held) =~= held);
    }
}

/// Releasing all keys goes from the lowest note up.
pub proof fn release_order_ascends(held: Seq<HeldNote>)
    ensures
        forall|i: int, j: int|
            0 <= i <= j < release_order(held).len() ==> release_order(held)[i].pitch.note
                <= release_order(held)[j].pitch.note,
    decreases held.len(),
{
    if held.len() > 0 {
        lemma_lowest(held);
        let place = lowest(held);
        let rest = held.remove(place);
        let order = release_order(held);
        let tail = release_order(rest);
        release_order_ascends(rest);
        assert forall|i: int, j: int| 0 <= i <= j < order.len() implies order[i].pitch.note
            <= order[j].pitch.note by {
            if i == 0 && j > 0 {
                lemma_order_members(rest, j - 1);
                let k = choose|k: int| 0 <= k < rest.len() && rest[k] == tail[j - 1];
                let l = if k < place {
                    k
                } else {
                    k + 1
                };
                assert(rest[k] == held[l]);
            } else if i > 0 {
                assert(order[i] == tail[i - 1] && order[j] == tail[j - 1]);
            }
        }
    }
}

proof fn lemma_order_members(held: Seq<HeldNote>, i: int)
    requires
        0 <= i < release_order(held).len(),
    ensures
        exists|k: int| 0 <= k < held.len() && held[k] == release_order(held)[i],
    decreases held.len(),
{
    if held.len() > 0 {
        lemma_lowest(held);
        let place = lowest(held);
        let rest = held.remove(place);
        if i == 0 {
            assert(held[place] == release_order(held)[0]);
        } else {
            lemma_order_members(rest, i - 1);
            let k = choose|k: int| 0 <= k < rest.len() && rest[k] == release_order(rest)[i - 1];
            let l = if k < place {
                k
            } else {
                k + 1
            };
            assert(held[l] == rest[k]);
        }
    }
}

/// A recording begins where the cursor is in the clip, and never goes back.
pub proof fn recordings_go_on(clock: TakeClock, earlier: u64, later: u64)
    requires
        earlier <= later,
    ensures
        clock.place(clock.started) == clock.start_beat,
        clock.place(earlier) <= clock.place(later),
{
    let before = if earlier <= clock.started {
        0
    } else {
        earlier - clock.started
    };
    let after = if later <= clock.started {
        0
    } else {
        later - clock.started
    };
    assert(before * clock.tempo <= after * clock.tempo) by (nonlinear_arith)
        requires
            before <= after,
            0 <= clock.tempo,
    ;
    assert(0 * clock.tempo == 0) by (nonlinear_arith);
}

/// No note of a recording is shorter than the shortest note.
pub proof fn recorded_notes_are_never_empty(note: HeldNote, end: u64)
    requires
        note.start is Some,
    ensures
        recorded(note, end).duration >= SHORTEST_NOTE,
        recorded(note, end).start == note.start->0,
{
}

/// The name of a note within its octave.
pub open spec fn pitch_class(note: int) -> Seq<char> {
    let class = note % 12;
    if class == 0 {
        "C"@
    } else if class == 1 {
        "C#"@
    } else if class == 2 {
        "D"@
    } else if class == 3 {
        "D#"@
    } else if class == 4 {
        "E"@
    } else if class == 5 {
        "F"@
    } else if class == 6 {
        "F#"@
    } else if class == 7 {
        "G"@
    } else if class == 8 {
        "G#"@
    } else if class == 9 {
        "A"@
    } else if class == 10 {
        "A#"@
    } else {
        "B"@
    }
}

/// The number of a note's octave. The lowest octave has the number -1.
pub open spec fn octave_text(note: int) -> Seq<char> {
    if note < 12 {
        "-1"@
    } else {
        decimal((note / 12 - 1) as nat)
    }
}

/// The octave at which the keyboard starts.
pub fn octave_label(root: u8) -> (label: String)
    ensures
        label@ == "C"@ + octave_text(root as int),
{
    let mut label = String::from_str("C");
    if root < 12 {
        label.append("-1");
    } else {
        push_decimal(&mut label, (root / 12 - 1) as u64);
    }
    assert(label@ =~= "C"@ + octave_text(root as int));
    label
}

/// The name of a note with its octave, such as `C4` for note 60.
pub fn note_name(note: u8) -> (name: String)
    ensures
        name@ == pitch_class(note as int) + octave_text(note as int),
{
    let class: &str = match note % 12 {
        0 => "C",
        1 => "C#",
        2 => "D",
        3 => "D#",
        4 => "E",
        5 => "F",
        6 => "F#",
        7 => "G",
        8 => "G#",
        9 => "A",
        10 => "A#",
        _ => "B",
    };
    let mut name = String::from_str(class);
    if note < 12 {
        name.append("-1");
    } else {
        push_decimal(&mut name, (note / 12 - 1) as u64);
    }
    name
}

/// The hundredths of a cent nearest to a number of sevenths of a semitone, without sign.
pub open spec fn cent_hundredths(sevenths: int) -> int {
    let size = if sevenths < 0 {
        -sevenths
    } else {
        sevenths
    };
    (20_000 * size + 7) / 14
}

/// What the keyboard shows of a pitch: its note, and how far it is off it in cents.
pub open spec fn pitch_text(pitch: Pitch) -> Seq<char> {
    let name = pitch_class(pitch.note as int) + octave_text(pitch.note as int);
    if pitch.sevenths == 0 {
        name
    } else {
        let hundredths = cent_hundredths(pitch.sevenths as int);
        name + (if pitch.sevenths < 0 {
            " -"@
        } else {
            " +"@
        }) + decimal((hundredths / 100) as nat) + "."@ + crate::text::padded(
            (hundredths % 100) as nat,
            2,
        ) + " cents"@
    }
}

/// What the keyboard shows of a pitch.
pub fn pitch_label(pitch: Pitch) -> (label: String)
    ensures
        label@ == pitch_text(pitch),
{
    let mut label = note_name(pitch.note);
    if pitch.sevenths == 0 {
        return label;
    }
    let size: u64 = if pitch.sevenths < 0 {
        label.append(" -");
        (-(pitch.sevenths as i64)) as u64
    } else {
        label.append(" +");
        pitch.sevenths as u64
    };
    let hundredths: u64 = (20_000 * size + 7) / 14;
    push_decimal(&mut label, hundredths / 100);
    label.append(".");
    crate::text::push_padded(&mut label, hundredths % 100, 2);
    label.append(" cents");
    label
}

/// A recording advances with its tempo, which is counted in thousandths of a beat per minute: as
/// many parts of a beat as the tempo gives for the time that has passed, rounded down.
pub proof fn recordings_keep_the_tempo(clock: TakeClock, now: u64)
    requires
        clock.started <= now,
        clock.place(now) < u64::MAX,
    ensures
        60_000_000_000_000 * (clock.place(now) - clock.start_beat) <= (now - clock.started)
            * clock.tempo * 960_000,
        (now - clock.started) * clock.tempo * 960_000 < 60_000_000_000_000 * (clock.place(now)
            - clock.start_beat + 1),
{
    let passed = (now - clock.started) * clock.tempo;
    let parts = 16 * passed / 1_000_000_000;
    assert(clock.place(now) == clock.start_beat + parts);
    assert((now - clock.started) * clock.tempo * 960_000 == passed * 960_000);
}

/// In a minute a recording advances by the beats that the tempo counts to the minute.
pub proof fn recordings_advance_by_the_minute(clock: TakeClock, now: u64)
    requires
        now == clock.started + 60_000_000_000,
        clock.start_beat + clock.tempo * 960 < u64::MAX,
    ensures
        clock.place(now) == clock.start_beat + clock.tempo * 960,
{
    let elapsed: int = now - clock.started;
    assert(elapsed * clock.tempo == 60_000_000_000 * clock.tempo);
}

/// A recorded note starts where the key went down, and lasts until it came up, but a thousandth
/// of a beat at least; it has the pitch and the velocity that it was played with.
pub proof fn notes_last_as_long_as_the_key(note: HeldNote, start: u64, end: u64)
    requires
        note.start == Some(start),
    ensures
        ({
            let kept = recorded(note, end);
            &&& kept.start == start
            &&& kept.pitch == note.pitch
            &&& kept.velocity == note.velocity
            &&& end >= start + 1_000 ==> kept.start + kept.duration == end
            &&& end < start + 1_000 ==> kept.duration == 1_000
        }),
{
}

/// Keys that come up are recorded one by one behind what is recorded, in the order in which they
/// come up, those that were struck during the recording.
pub proof fn released_keys_are_recorded(
    notes: Seq<RecordedNote>,
    released: Seq<HeldNote>,
    key: HeldNote,
    end: u64,
)
    ensures
        with_released(notes, Seq::empty(), end) == notes,
        key.start is None ==> with_released(notes, released.push(key), end) == with_released(
            notes,
            released,
            end,
        ),
        key.start is Some ==> with_released(notes, released.push(key), end) == with_released(
            notes,
            released,
            end,
        ).push(recorded(key, end)),
{
    assert(released.push(key).drop_last() =~= released);
}

/// A recording ends when it is no longer shown, another clip is selected, the tempo changes by
/// more than the least step, or the transport does what the recording did not: with it, it stops,
/// goes back by more than a twentieth of a beat or is off by more than three quarters of one;
/// without it, it plays.
pub proof fn interrupted_recordings_end(
    clock: TakeClock,
    with_transport: bool,
    recording: bool,
    same_target: bool,
    playing: bool,
    tempo: u32,
    playhead: i64,
    now: u64,
)
    ensures
        ({
            let off = playhead - clock.clip_start - clock.place(now);
            must_end(
                with_transport,
                clock.meets(recording, same_target, playing, tempo, playhead, now),
            ) <==> {
                ||| !recording
                ||| !same_target
                ||| !(-1 <= tempo - clock.tempo <= 1)
                ||| playing != with_transport
                ||| with_transport && clock.last_playhead - playhead > 48_000
                ||| with_transport && !(-720_000 <= off <= 720_000)
            }
        }),
{
}

/// A recording begins where the playhead is in the clip, or at its start, at the tempo of the
/// transport.
pub proof fn recordings_begin_at_the_playhead(
    clock: TakeClock,
    now: u64,
    clip_start: i64,
    transport: TransportPlace,
)
    requires
        clock.begins(now, clip_start, transport),
    ensures
        transport.playhead >= clip_start ==> clock.place(now) == transport.playhead - clip_start,
        transport.playhead < clip_start ==> clock.place(now) == 0,
        clock.tempo == transport.tempo,
        clock.last_playhead == transport.playhead,
        clock.clip_start == clip_start,
{
}

/// Nothing stands in the way of a recording but a take that is not saved, a missing clip, or a
/// playhead that plays before the clip, in this order.
pub proof fn recordings_need_a_clip_and_a_place<G>(
    piano: KeyboardPiano<G>,
    target: Option<G>,
    clip_start: i64,
    transport: TransportPlace,
)
    ensures
        ({
            let obstacle = piano.recording_obstacle(target, clip_start, transport);
            let early = transport.playing && transport.playhead < clip_start;
            &&& obstacle is None <==> piano.unsaved is None && target is Some && !early
            &&& obstacle == Some(PianoMessage::SaveFirst) <==> piano.unsaved is Some
            &&& obstacle == Some(PianoMessage::SelectClip) <==> piano.unsaved is None && target
                is None
            &&& obstacle == Some(PianoMessage::MoveCursor) <==> piano.unsaved is None && target
                is Some && early
        }),
{
}

/// The names of the notes come again with every octave, and the sharps are named after the note
/// below.
pub proof fn note_names_come_again(note: int, octave: nat, key: int)
    requires
        0 <= key < 12,
    ensures
        pitch_class(note + 12) == pitch_class(note),
        pitch_class(60) == "C"@,
        pitch_class(62) == "D"@,
        pitch_class(64) == "E"@,
        pitch_class(65) == "F"@,
        pitch_class(67) == "G"@,
        pitch_class(69) == "A"@,
        pitch_class(71) == "B"@,
        key == 0 || key == 2 || key == 5 || key == 7 || key == 9 ==> pitch_class(key + 1)
            == pitch_class(key) + "#"@,
        octave_text(12 * (octave + 1) + key) == decimal(octave),
        octave_text(key) == "-1"@,
{
    reveal_strlit("C");
    reveal_strlit("D");
    reveal_strlit("F");
    reveal_strlit("G");
    reveal_strlit("A");
    reveal_strlit("#");
    reveal_strlit("C#");
    reveal_strlit("D#");
    reveal_strlit("F#");
    reveal_strlit("G#");
    reveal_strlit("A#");
    assert("C"@ + "#"@ =~= "C#"@);
    assert("D"@ + "#"@ =~= "D#"@);
    assert("F"@ + "#"@ =~= "F#"@);
    assert("G"@ + "#"@ =~= "G#"@);
    assert("A"@ + "#"@ =~= "A#"@);
    assert((note + 12) % 12 == note % 12);
    assert((12 * (octave + 1) + key) / 12 == octave + 1);
}

/// A seventh of a semitone is a seventh of a hundred cents, to the nearest hundredth.
pub proof fn sevenths_are_shown_in_cents(sevenths: int)
    ensures
        sevenths >= 0 ==> -7 < 14 * cent_hundredths(sevenths) - 20_000 * sevenths <= 7,
        cent_hundredths(-sevenths) == cent_hundredths(sevenths),
{
}

/// A recording that ends keeps what was recorded, and records every key that is still held and
/// was struck during it, up to where the recording is.
pub proof fn held_keys_are_recorded_at_the_end<G>(piano: KeyboardPiano<G>, take: Take<G>, now: u64)
    requires
        piano.take == Some(take),
    ensures
        ({
            let notes = piano.notes_at_end(now);
            let end = take.clock.place(now) as u64;
            &&& notes.len() >= take.notes@.len()
            &&& forall|i: int|
                0 <= i < take.notes@.len() ==> #[trigger] notes[i] == take.notes@[i]
            &&& forall|i: int|
                0 <= i < piano.held@.len() && (#[trigger] piano.held@[i]).start is Some
                    ==> notes.contains(recorded(piano.held@[i], end))
        }),
{
    broadcast use vstd::seq_lib::group_to_multiset_ensures;

    let order = release_order(piano.held@);
    let end = take.clock.place(now) as u64;
    release_order_is_a_reordering(piano.held@);
    lemma_released_are_there(take.notes@, order, end);
    assert forall|i: int|
        0 <= i < piano.held@.len() && (
        #[trigger] piano.held@[i]).start is Some implies piano.notes_at_end(now).contains(
        recorded(piano.held@[i], end),
    ) by {
        assert(piano.held@.contains(piano.held@[i]));
        assert(piano.held@.to_multiset().contains(piano.held@[i]));
        assert(order.to_multiset().contains(piano.held@[i]));
        assert(order.contains(piano.held@[i]));
        let k = choose|k: int| 0 <= k < order.len() && order[k] == piano.held@[i];
        assert(order[k].start is Some);
    }
}

proof fn lemma_released_are_there(notes: Seq<RecordedNote>, released: Seq<HeldNote>, end: u64)
    ensures
        with_released(notes, released, end).len() >= notes.len(),
        forall|i: int|
            0 <= i < notes.len() ==> #[trigger] with_released(notes, released, end)[i] == notes[i],
        forall|k: int|
            0 <= k < released.len() && (#[trigger] released[k]).start is Some ==> with_released(
                notes,
                released,
                end,
            ).contains(recorded(released[k], end)),
    decreases released.len(),
{
    if released.len() > 0 {
        let less = released.drop_last();
        lemma_released_are_there(notes, less, end);
        let before = with_released(notes, less, end);
        let after = with_released(notes, released, end);
        assert forall|k: int| 0 <= k < released.len() && (
        #[trigger] released[k]).start is Some implies after.contains(recorded(released[k], end)) by {
            if k < less.len() {
                assert(less[k] == released[k]);
                let note = recorded(released[k], end);
                let i = choose|i: int| 0 <= i < before.len() && before[i] == note;
                assert(after[i] == note);
            } else {
                assert(after[before.len() as int] == recorded(released[k], end));
            }
        }
    }
}

/// The pitch of a key is read by its name and octave, and by how many cents it is off, sharp or
/// flat.
pub proof fn pitches_are_read_by_name_and_cents(note: u8, sevenths: i8)
    ensures
        ({
            let name = pitch_class(note as int) + octave_text(note as int);
            let text = pitch_text(Pitch { note, sevenths });
            let hundredths = cent_hundredths(sevenths as int);
            let size = decimal((hundredths / 100) as nat) + "."@ + crate::text::padded(
                (hundredths % 100) as nat,
                2,
            );
            &&& sevenths == 0 ==> text == name
            &&& sevenths > 0 ==> text == name + " +"@ + size + " cents"@
            &&& sevenths < 0 ==> text == name + " -"@ + size + " cents"@
        }),
{
    let hundredths = cent_hundredths(sevenths as int);
    let size = decimal((hundredths / 100) as nat) + "."@ + crate::text::padded(
        (hundredths % 100) as nat,
        2,
    );
    let name = pitch_class(note as int) + octave_text(note as int);
    let text = pitch_text(Pitch { note, sevenths });
    if sevenths > 0 {
        assert(text =~= name + " +"@ + size + " cents"@);
    } else if sevenths < 0 {
        assert(text =~= name + " -"@ + size + " cents"@);
    }
}

/// No key is held twice: another is held only where it was not held before.
pub proof fn keys_are_held_once(held: Seq<HeldNote>, note: HeldNote)
    ensures
        held_once(Seq::empty()),
        held_once(held.push(note)) <==> held_once(held) && !holds(held, note.key),
        holds(held.push(note), note.key),
        !holds(Seq::empty(), note.key),
{
    let more = held.push(note);
    assert(more[held.len() as int] == note);
    if held_once(more) {
        assert forall|i: int, j: int|
            0 <= i < held.len() && 0 <= j < held.len() && i != j implies held[i].key
            != held[j].key by {
            assert(more[i].key != more[j].key);
        }
        if holds(held, note.key) {
            let i = choose|i: int| 0 <= i < held.len() && (#[trigger] held[i]).key == note.key;
            assert(more[i].key != more[held.len() as int].key);
        }
    }
    if held_once(held) && !holds(held, note.key) {
        assert forall|i: int, j: int|
            0 <= i < more.len() && 0 <= j < more.len() && i != j implies more[i].key
            != more[j].key by {
            if i < held.len() && j < held.len() {
                assert(held[i].key != held[j].key);
            } else if i < held.len() {
                assert(held[i].key != note.key);
            } else {
                assert(held[j].key != note.key);
            }
        }
    }
}

} // verus!
