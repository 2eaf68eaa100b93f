//! The instrument that the computer keyboard plays.
//!
//! The instrument of the selected track is prepared on a thread of its own. It is prepared
//! anew only when something that is heard has changed; notes that are recorded while it
//! plays are no such thing.
use crate::asset_preview::text_view;
use crate::monitor::{following_generation, next_generation};
use crate::queue::{
    enqueue_keeps_order, new_sampler_keeps_order, orderly, silencing_keeps_order,
    withdrawal_keeps_order, withdrawn, CommandQueue, RealtimeCommand, Withdrawal, AUDIO_BACKLOG,
};
use vstd::prelude::*;

verus! {

/// The highest note, and the highest velocity.
pub const MIDI_MAX: u8 = 127;

/// Sevenths of a semitone in a semitone.
pub const SEVENTHS: i8 = 7;

/// A track, as far as its live instrument goes. An instrument, a volume and the clips are
/// carried by numbers that stand for them.
#[derive(Clone, Copy, Debug, PartialEq, Eq, Structural)]
pub struct KeyboardTrack {
    pub id: u128,
    pub composition_id: u128,
    /// The track plays notes, not recordings.
    pub plays_notes: bool,
    pub instrument: Option<u64>,
    pub volume_bits: u32,
    pub muted: bool,
    pub solo: bool,
    pub clips: u64,
}

/// A project, as far as its live instruments go.
#[derive(Debug)]
pub struct KeyboardProject {
    pub tracks: Vec<KeyboardTrack>,
    pub assets: u64,
    pub event_data: u64,
    pub tempo_bits: u64,
    pub random_seed: u64,
}

/// Everything that is heard of a live instrument. Clips and their notes are no part of it.
#[derive(Clone, Copy, Debug, PartialEq, Eq, Structural)]
pub struct InstrumentKey {
    pub track_id: u128,
    pub instrument: u64,
    pub assets: u64,
    pub volume_bits: u32,
    pub muted: bool,
    pub tempo_bits: u64,
    pub random_seed: u64,
    pub sample_rate: u32,
}

/// Whether `place` is the first track with this id.
pub open spec fn is_place(tracks: Seq<KeyboardTrack>, id: u128, place: int) -> bool {
    &&& 0 <= place < tracks.len()
    &&& tracks[place].id == id
    &&& forall|i: int| 0 <= i < place ==> (#[trigger] tracks[i]).id != id
}

/// Whether a track of a composition is soloed and heard.
pub open spec fn has_solo(tracks: Seq<KeyboardTrack>, composition_id: u128) -> bool {
    exists|i: int|
        0 <= i < tracks.len() && (#[trigger] tracks[i]).composition_id == composition_id
            && tracks[i].solo && !tracks[i].muted
}

/// Whether a track is silent: muted, or beside a soloed one.
pub open spec fn is_silent(tracks: Seq<KeyboardTrack>, track: KeyboardTrack) -> bool {
    track.muted || (has_solo(tracks, track.composition_id) && !track.solo)
}

/// What is heard of the track at `place`.
pub open spec fn key_of(project: KeyboardProject, place: int, sample_rate: u32) -> InstrumentKey {
    let track = project.tracks[place];
    InstrumentKey {
        track_id: track.id,
        instrument: track.instrument->0,
        assets: project.assets,
        volume_bits: track.volume_bits,
        muted: is_silent(project.tracks@, track),
        tempo_bits: project.tempo_bits,
        random_seed: project.random_seed,
        sample_rate,
    }
}

/// Whether the track at `place` has an instrument that can be played.
pub open spec fn is_playable(project: KeyboardProject, track_id: u128, place: int) -> bool {
    &&& is_place(project.tracks@, track_id, place)
    &&& project.tracks[place].plays_notes
    &&& project.tracks[place].instrument is Some
}

fn any_solo(tracks: &Vec<KeyboardTrack>, composition_id: u128) -> (found: bool)
    ensures
        found == has_solo(tracks@, composition_id),
{
    let mut index: usize = 0;
    while index < tracks.len()
        invariant
            index <= tracks.len(),
            forall|i: int|
                0 <= i < index ==> !((#[trigger] tracks@[i]).composition_id == composition_id
                    && tracks@[i].solo && !tracks@[i].muted),
        decreases tracks.len() - index,
    {
        let track = tracks[index];
        if track.composition_id == composition_id && track.solo && !track.muted {
            assert(tracks@[index as int].solo);
            return true;
        }
        index += 1;
    }
    false
}

impl InstrumentKey {
    /// What is heard of a track's instrument at a sample rate. Only a track that plays notes
    /// and has an instrument is heard.
    pub fn from_project(project: &KeyboardProject, track_id: u128, sample_rate: u32) -> (key: Option<
        Self,
    >)
        ensures
            key is Some <==> exists|place: int| is_playable(*project, track_id, place),
            forall|place: int|
                is_playable(*project, track_id, place) ==> key == Some(
                    #[trigger] key_of(*project, place, sample_rate),
                ),
    {
        let mut index: usize = 0;
        while index < project.tracks.len()
            invariant
                index <= project.tracks.len(),
                forall|i: int| 0 <= i < index ==> (#[trigger] project.tracks@[i]).id != track_id,
            decreases project.tracks.len() - index,
        {
            let track = project.tracks[index];
            if track.id == track_id {
                assert(is_place(project.tracks@, track_id, index as int));
                assert forall|place: int| is_place(project.tracks@, track_id, place) implies place
                    == index by {
                    if place > index {
                        assert(project.tracks@[index as int].id != track_id);
                    }
                }
                if !track.plays_notes {
                    return None;
                }
                return match track.instrument {
                    None => None,
                    Some(instrument) => {
                        let muted = track.muted || (any_solo(&project.tracks, track.composition_id)
                            && !track.solo);
                        assert(is_playable(*project, track_id, index as int));
                        Some(
                            InstrumentKey {
                                track_id,
                                instrument,
                                assets: project.assets,
                                volume_bits: track.volume_bits,
                                muted,
                                tempo_bits: project.tempo_bits,
                                random_seed: project.random_seed,
                                sample_rate,
                            },
                        )
                    },
                };
            }
            index += 1;
        }
        None
    }
}

/// What the user sees of the live instrument.
#[derive(Debug)]
pub struct KeyboardInstrumentStatus {
    pub loading: bool,
    pub ready: bool,
    pub error: Option<String>,
}

/// What the instrument was last compared with.
#[derive(Clone, Copy, Debug, PartialEq, Eq, Structural)]
pub struct CheckedState {
    pub revision: u64,
    pub track_id: Option<u128>,
    pub sample_rate: Option<u32>,
}

/// A request to prepare an instrument.
#[derive(Clone, Copy, Debug, PartialEq, Eq, Structural)]
pub struct PrepareRequest {
    pub generation: u64,
    pub track_id: u128,
    pub sample_rate: u32,
}

/// The live instrument.
#[derive(Debug)]
pub struct KeyboardInstrument {
    pub track_id: Option<u128>,
    pub checked: Option<CheckedState>,
    pub key: Option<InstrumentKey>,
    pub generation: u64,
    pub status: KeyboardInstrumentStatus,
}

/// The live instrument as a mathematical value.
#[verifier::ext_equal]
pub struct KeyboardModel {
    pub track_id: Option<u128>,
    pub checked: Option<CheckedState>,
    pub key: Option<InstrumentKey>,
    pub generation: u64,
    pub loading: bool,
    pub ready: bool,
    pub error: Option<Seq<char>>,
}

impl View for KeyboardInstrument {
    type V = KeyboardModel;

    open spec fn view(&self) -> KeyboardModel {
        KeyboardModel {
            track_id: self.track_id,
            checked: self.checked,
            key: self.key,
            generation: self.generation,
            loading: self.status.loading,
            ready: self.status.ready,
            error: text_view(self.status.error),
        }
    }
}

impl KeyboardModel {
    /// What the instrument is compared with.
    pub open spec fn present(self, revision: u64, sample_rate: Option<u32>) -> CheckedState {
        CheckedState { revision, track_id: self.track_id, sample_rate }
    }

    /// The instrument with a new key.
    pub open spec fn rekeyed(self, key: Option<InstrumentKey>) -> Self {
        KeyboardModel {
            key,
            generation: next_generation(self.generation),
            loading: key is Some,
            ready: false,
            error: None,
            ..self
        }
    }

    /// The line of commands after the instrument got a new key.
    pub open spec fn rekeyed_line(
        self,
        line: Seq<RealtimeCommand>,
        open: bool,
    ) -> Seq<RealtimeCommand> {
        if open {
            withdrawn(line, Withdrawal::Keyboard).push(RealtimeCommand::InstallLiveSampler(None))
        } else {
            withdrawn(line, Withdrawal::Keyboard)
        }
    }

    /// Whether the news that an instrument was prepared still count.
    pub open spec fn awaits(self, generation: u64) -> bool {
        generation == self.generation && self.key is Some
    }
}

/// The key that the instrument should have.
pub open spec fn is_wanted_key(
    project: KeyboardProject,
    track_id: Option<u128>,
    sample_rate: Option<u32>,
    key: Option<InstrumentKey>,
) -> bool {
    if track_id is Some && sample_rate is Some {
        &&& key is Some <==> exists|place: int| is_playable(project, track_id->0, place)
        &&& forall|place: int|
            is_playable(project, track_id->0, place) ==> key == Some(
                #[trigger] key_of(project, place, sample_rate->0),
            )
    } else {
        key is None
    }
}

fn same_key(a: &Option<InstrumentKey>, b: &Option<InstrumentKey>) -> (same: bool)
    ensures
        same == (*a == *b),
{
    match (a, b) {
        (Some(left), Some(right)) => *left == *right,
        (None, None) => true,
        _ => false,
    }
}

impl KeyboardInstrument {
    /// No instrument.
    pub fn new() -> (keyboard: Self)
        ensures
            keyboard@ == (KeyboardModel {
                track_id: None,
                checked: None,
                key: None,
                generation: 0,
                loading: false,
                ready: false,
                error: None,
            }),
    {
        KeyboardInstrument {
            track_id: None,
            checked: None,
            key: None,
            generation: 0,
            status: KeyboardInstrumentStatus { loading: false, ready: false, error: None },
        }
    }

    /// Forgets the instrument, so that it is prepared anew; what is under way is void.
    pub fn invalidate(&mut self)
        ensures
            final(self)@ == (KeyboardModel {
                checked: None,
                key: None,
                generation: next_generation(old(self)@.generation),
                loading: false,
                ready: false,
                error: None,
                ..old(self)@
            }),
    {
        self.generation = following_generation(self.generation);
        self.checked = None;
        self.key = None;
        self.status = KeyboardInstrumentStatus { loading: false, ready: false, error: None };
    }

    /// Selects a track.
    pub fn select_track(&mut self, track_id: Option<u128>)
        ensures
            final(self)@ == (KeyboardModel { track_id, ..old(self)@ }),
    {
        self.track_id = track_id;
    }

    /// Compares the instrument with the project, once per revision, track and sample rate.
    /// Where what is heard has changed, the old instrument is taken away and the new one is
    /// asked for.
    pub fn refresh(
        &mut self,
        project: &KeyboardProject,
        revision: u64,
        sample_rate: Option<u32>,
        queue: &mut CommandQueue,
    ) -> (request: Option<PrepareRequest>)
        ensures
            ({
                let present = old(self)@.present(revision, sample_rate);
                let checked = KeyboardModel { checked: Some(present), ..old(self)@ };
                if old(self)@.checked == Some(present) {
                    &&& final(self)@ == old(self)@
                    &&& final(queue)@ == old(queue)@
                    &&& request is None
                } else {
                    &&& is_wanted_key(*project, old(self)@.track_id, sample_rate, final(self)@.key)
                    &&& if final(self)@.key == old(self)@.key {
                        &&& final(self)@ == checked
                        &&& final(queue)@ == old(queue)@
                        &&& request is None
                    } else {
                        &&& final(self)@ == checked.rekeyed(final(self)@.key)
                        &&& final(queue)@ == old(self)@.rekeyed_line(
                            old(queue)@,
                            sample_rate is Some,
                        )
                        &&& request == (match final(self)@.key {
                            Some(key) => Some(
                                PrepareRequest {
                                    generation: final(self)@.generation,
                                    track_id: key.track_id,
                                    sample_rate: key.sample_rate,
                                },
                            ),
                            None => None,
                        })
                    }
                }
            }),
            orderly(old(queue)@) ==> orderly(final(queue)@),
    {
        let same_track = match (self.checked, self.track_id) {
            (Some(checked), Some(track)) => match checked.track_id {
                Some(known) => known == track,
                None => false,
            },
            (Some(checked), None) => checked.track_id.is_none(),
            (None, _) => false,
        };
        let same_rest = match self.checked {
            Some(checked) => checked.revision == revision && match (
                checked.sample_rate,
                sample_rate,
            ) {
                (Some(left), Some(right)) => left == right,
                (None, None) => true,
                _ => false,
            },
            None => false,
        };
        if same_track && same_rest {
            return None;
        }
        self.checked = Some(CheckedState { revision, track_id: self.track_id, sample_rate });
        let key = match (self.track_id, sample_rate) {
            (Some(track_id), Some(rate)) => InstrumentKey::from_project(project, track_id, rate),
            _ => None,
        };
        if same_key(&key, &self.key) {
            return None;
        }
        let ghost line = queue@;
        self.generation = following_generation(self.generation);
        self.key = key;
        self.status = KeyboardInstrumentStatus {
            loading: key.is_some(),
            ready: false,
            error: None,
        };
        queue.withdraw(Withdrawal::Keyboard);
        if sample_rate.is_some() {
            queue.force(RealtimeCommand::InstallLiveSampler(None));
        }
        proof {
            if orderly(line) {
                withdrawal_keeps_order(line, Withdrawal::Keyboard);
                new_sampler_keeps_order(line, Withdrawal::Keyboard, None);
            }
        }
        match key {
            Some(key) => Some(
                PrepareRequest {
                    generation: self.generation,
                    track_id: key.track_id,
                    sample_rate: key.sample_rate,
                },
            ),
            None => None,
        }
    }

    /// The preparing thread is gone.
    pub fn worker_stopped(&mut self)
        ensures
            final(self)@ == (KeyboardModel {
                loading: false,
                error: Some("Keyboard sampler worker disconnected"@),
                ..old(self)@
            }),
    {
        self.status.loading = false;
        self.status.error = Some(String::from_str("Keyboard sampler worker disconnected"));
    }

    /// Takes news of a prepared instrument. News that were overtaken by a newer request are
    /// passed over.
    pub fn prepared(
        &mut self,
        generation: u64,
        result: Result<(), String>,
        queue: &mut CommandQueue,
    )
        ensures
            ({
                let settled = KeyboardModel { loading: false, ..old(self)@ };
                if !old(self)@.awaits(generation) {
                    final(self)@ == old(self)@ && final(queue)@ == old(queue)@
                } else {
                    match result {
                        Ok(_) => {
                            &&& final(self)@ == (KeyboardModel {
                                ready: true,
                                error: None,
                                ..settled
                            })
                            &&& final(queue)@ == withdrawn(
                                old(queue)@,
                                Withdrawal::Samplers,
                            ).push(RealtimeCommand::InstallLiveSampler(Some(generation)))
                        },
                        Err(message) => {
                            &&& final(self)@ == (KeyboardModel {
                                ready: false,
                                error: Some(message@),
                                ..settled
                            })
                            &&& final(queue)@ == old(queue)@
                        },
                    }
                }
            }),
            orderly(old(queue)@) ==> orderly(final(queue)@),
    {
        if generation != self.generation || self.key.is_none() {
            return;
        }
        self.status.loading = false;
        match result {
            Ok(_) => {
                let ghost line = queue@;
                queue.withdraw(Withdrawal::Samplers);
                queue.force(RealtimeCommand::InstallLiveSampler(Some(generation)));
                proof {
                    if orderly(line) {
                        new_sampler_keeps_order(line, Withdrawal::Samplers, Some(generation));
                    }
                }
                self.status.ready = true;
                self.status.error = None;
            },
            Err(message) => {
                self.status.ready = false;
                self.status.error = Some(message);
            },
        }
    }

    /// Whether a note can be played now.
    pub open spec fn plays(
        self,
        line: Seq<RealtimeCommand>,
        open: bool,
        note: u8,
        velocity: u8,
        sevenths: i8,
    ) -> bool {
        &&& self.status.ready
        &&& open
        &&& line.len() < AUDIO_BACKLOG
        &&& note <= MIDI_MAX
        &&& velocity > 0
        &&& -SEVENTHS <= sevenths <= SEVENTHS
    }

    /// Starts a note that lies `sevenths` sevenths of a semitone off; `false` means that it
    /// cannot be played.
    pub fn note_on_tuned(
        &self,
        queue: &mut CommandQueue,
        open: bool,
        note: u8,
        velocity: u8,
        sevenths: i8,
    ) -> (started: bool)
        ensures
            started == self.plays(old(queue)@, open, note, velocity, sevenths),
            final(queue)@ == (if started {
                old(queue)@.push(
                    RealtimeCommand::LiveNoteOnTuned {
                        note,
                        velocity: crate::pages::least(velocity as int, MIDI_MAX as int) as u8,
                        sevenths,
                    },
                )
            } else {
                old(queue)@
            }),
            orderly(old(queue)@) ==> orderly(final(queue)@),
    {
        if !self.status.ready || !open || queue.len() >= AUDIO_BACKLOG || note > MIDI_MAX
            || velocity == 0 || sevenths > SEVENTHS || sevenths < -SEVENTHS {
            return false;
        }
        let loudness: u8 = if velocity > MIDI_MAX {
            MIDI_MAX
        } else {
            velocity
        };
        let command = RealtimeCommand::LiveNoteOnTuned { note, velocity: loudness, sevenths };
        proof {
            if orderly(queue@) {
                enqueue_keeps_order(queue@, command);
            }
        }
        queue.enqueue(command)
    }

    /// Ends a note. Where the line is full, all notes end: a lost release would leave a voice
    /// that never stops.
    pub fn note_off(&self, queue: &mut CommandQueue, open: bool, note: u8)
        ensures
            final(queue)@ == (if !open {
                old(queue)@
            } else if old(queue)@.len() >= AUDIO_BACKLOG {
                withdrawn(old(queue)@, Withdrawal::LiveNotes).push(
                    RealtimeCommand::LiveAllNotesOff,
                )
            } else {
                old(queue)@.push(RealtimeCommand::LiveNoteOff { note })
            }),
            open ==> final(queue)@.last() == (RealtimeCommand::LiveNoteOff { note }) || final(
                queue
            )@.last() == RealtimeCommand::LiveAllNotesOff,
            orderly(old(queue)@) ==> orderly(final(queue)@),
    {
        if open {
            if queue.len() >= AUDIO_BACKLOG {
                self.all_notes_off(queue, open);
                return;
            }
            let command = RealtimeCommand::LiveNoteOff { note };
            proof {
                if orderly(queue@) {
                    enqueue_keeps_order(queue@, command);
                }
            }
            queue.enqueue(command);
        }
    }

    /// Ends all notes, however full the line is, and forgets those that have not begun.
    pub fn all_notes_off(&self, queue: &mut CommandQueue, open: bool)
        ensures
            final(queue)@ == (if open {
                withdrawn(old(queue)@, Withdrawal::LiveNotes).push(
                    RealtimeCommand::LiveAllNotesOff,
                )
            } else {
                withdrawn(old(queue)@, Withdrawal::LiveNotes)
            }),
            orderly(old(queue)@) ==> orderly(final(queue)@),
    {
        let ghost line = queue@;
        queue.withdraw(Withdrawal::LiveNotes);
        if open {
            queue.force(RealtimeCommand::LiveAllNotesOff);
        }
        proof {
            if orderly(line) {
                withdrawal_keeps_order(line, Withdrawal::LiveNotes);
                silencing_keeps_order(line);
            }
        }
    }
}

/// An instrument that was prepared for a request that has been superseded is never installed.
pub proof fn superseded_instruments_are_void(
    keyboard: KeyboardModel,
    key: Option<InstrumentKey>,
    generation: u64,
)
    requires
        generation == keyboard.generation,
    ensures
        !keyboard.rekeyed(key).awaits(generation),
{
}

/// A track is silent where it is muted, or where another of its composition plays alone and it
/// does not.
pub proof fn tracks_are_silent_when_muted_or_left_out(
    tracks: Seq<KeyboardTrack>,
    track: KeyboardTrack,
    other: int,
)
    ensures
        track.muted ==> is_silent(tracks, track),
        track.solo && !track.muted ==> !is_silent(tracks, track),
        0 <= other < tracks.len() && tracks[other].solo && !tracks[other].muted
            && tracks[other].composition_id == track.composition_id && !track.solo ==> is_silent(
            tracks,
            track,
        ),
        !track.muted && (forall|i: int|
            0 <= i < tracks.len() && (#[trigger] tracks[i]).composition_id == track.composition_id
                ==> !tracks[i].solo || tracks[i].muted) ==> !is_silent(tracks, track),
{
}

/// An instrument is known by everything that its sound depends on: two projects in which none of
/// it differs have the same key, and the key tells where any of it does.
pub proof fn keys_hold_what_the_sound_depends_on(
    project: KeyboardProject,
    place: int,
    sample_rate: u32,
)
    requires
        0 <= place < project.tracks.len(),
        project.tracks[place].instrument is Some,
    ensures
        ({
            let key = key_of(project, place, sample_rate);
            let track = project.tracks[place];
            &&& key.track_id == track.id && Some(key.instrument) == track.instrument
            &&& key.assets == project.assets && key.volume_bits == track.volume_bits
            &&& key.tempo_bits == project.tempo_bits && key.random_seed == project.random_seed
            &&& key.sample_rate == sample_rate
            &&& key.muted == is_silent(project.tracks@, track)
        }),
{
}

/// An instrument with another key is loaded anew: it is not ready, nothing that was asked for
/// before is awaited, and what was played on the old one is taken back.
pub proof fn other_instruments_are_loaded_anew(
    keyboard: KeyboardModel,
    key: Option<InstrumentKey>,
    line: Seq<RealtimeCommand>,
    open: bool,
    command: RealtimeCommand,
)
    ensures
        ({
            let after = keyboard.rekeyed(key);
            let left = keyboard.rekeyed_line(line, open);
            &&& after.key == key && after.generation != keyboard.generation
            &&& !after.ready && after.error is None
            &&& after.loading <==> key is Some
            &&& after.track_id == keyboard.track_id && after.checked == keyboard.checked
            &&& !after.awaits(keyboard.generation)
            &&& open ==> left.last() == RealtimeCommand::InstallLiveSampler(None)
            &&& (command is LiveNoteOn || command is LiveNoteOnTuned || command is LiveNoteOff
                || command is LiveAllNotesOff || (command matches RealtimeCommand::InstallLiveSampler(
                sampler,
            ) && sampler is Some)) ==> !left.contains(command)
            &&& line.contains(command) && (command is Play || command is Pause || command is Stop
                || command is Seek || command is InstallSnapshot) ==> left.contains(command)
        }),
{
    crate::queue::withdrawals_leave_the_others(line, Withdrawal::Keyboard, command);
    let kept = withdrawn(line, Withdrawal::Keyboard);
    let left = keyboard.rekeyed_line(line, open);
    if kept.contains(command) {
        let i = choose|i: int| 0 <= i < kept.len() && kept[i] == command;
        assert(left[i] == command);
    }
    if left.contains(command) && !kept.contains(command) {
        let i = choose|i: int| 0 <= i < left.len() && left[i] == command;
        if i < kept.len() {
            assert(kept[i] == command);
        }
        assert(command == RealtimeCommand::InstallLiveSampler(None));
    }
}

/// A note is played only on an instrument that is ready, through a device that is open, if it is
/// a note of MIDI that is struck at all and off the scale by a semitone at most.
pub proof fn notes_need_a_ready_instrument(
    keyboard: KeyboardInstrument,
    line: Seq<RealtimeCommand>,
    open: bool,
    note: u8,
    velocity: u8,
    sevenths: i8,
)
    ensures
        keyboard.plays(line, open, note, velocity, sevenths) <==> keyboard.status.ready && open
            && line.len() < 128 && note < 128 && velocity != 0 && -7 <= sevenths <= 7,
{
}

/// The instrument of a track is wanted where the track plays notes and has one, under the key of
/// the first track with that id; without a track or a device none is wanted.
pub proof fn wanted_instruments_are_those_of_the_track(
    project: KeyboardProject,
    track_id: u128,
    sample_rate: u32,
    place: int,
    key: Option<InstrumentKey>,
)
    requires
        0 <= place < project.tracks.len(),
        project.tracks@[place].id == track_id,
        forall|i: int| 0 <= i < place ==> (#[trigger] project.tracks@[i]).id != track_id,
    ensures
        is_wanted_key(project, Some(track_id), Some(sample_rate), key) ==> {
            let track = project.tracks@[place];
            &&& track.plays_notes && track.instrument is Some ==> (key matches Some(key)
                && key.track_id == track_id && Some(key.instrument) == track.instrument
                && key.sample_rate == sample_rate)
            &&& !track.plays_notes || track.instrument is None ==> key is None
        },
        is_wanted_key(project, None, Some(sample_rate), key) ==> key is None,
        is_wanted_key(project, Some(track_id), None, key) ==> key is None,
{
    assert(is_place(project.tracks@, track_id, place));
    let track = project.tracks@[place];
    if track.plays_notes && track.instrument is Some {
        assert(is_playable(project, track_id, place));
        if is_wanted_key(project, Some(track_id), Some(sample_rate), key) {
            let rate = Some(sample_rate);
            assert(key == Some(key_of(project, place, rate->0)));
        }
    } else {
        assert forall|other: int| !#[trigger] is_playable(project, track_id, other) by {
            if is_playable(project, track_id, other) {
                if other < place {
                    assert(project.tracks@[other].id != track_id);
                } else if place < other {
                    assert(project.tracks@[place].id != track_id);
                }
            }
        }
    }
}

} // verus!
