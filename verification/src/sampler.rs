//! The sampler: the zones of an instrument, and the window in which one of them is tuned.
//!
//! Times are counted in nanoseconds, gains in thousandths of a decibel, attack and release
//! in microseconds, the sensitivity to velocity in thousandths.
use crate::asset_preview::text_view;
use crate::pages::{greatest, least};
use crate::slice::{fit, fitted, Slice, SliceSource};
use crate::text::{
    contains_text, decimal, lower_of, lower_text, occurs_in, push_decimal,
};
use crate::transport::clamped;
use vstd::prelude::*;

verus! {

/// The shortest source range of a zone.
pub const SHORTEST_RANGE: i64 = 1_000_000;

/// The length of a source that is not known.
pub const USUAL_SOURCE: i64 = 1_000_000_000;

/// The softest gain.
pub const SOFTEST: i32 = -120_000;

/// The loudest gain.
pub const LOUDEST: i32 = 24_000;

/// The longest attack and release.
pub const LONGEST_FADE: u32 = 60_000_000;

/// The most voices at a time.
pub const MOST_VOICES: u32 = 1_024;

/// A part of a recording, and the notes that play it.
#[derive(Debug)]
pub struct SamplerZone {
    pub id: u128,
    pub name: String,
    pub asset_id: u128,
    pub source_start: i64,
    pub source_duration: i64,
    pub root_note: u8,
    pub low_note: u8,
    pub high_note: u8,
    pub low_velocity: u8,
    pub high_velocity: u8,
    pub one_shot: bool,
    pub reverse: bool,
    pub gain: i32,
    pub velocity_sensitivity: u32,
    pub attack: u32,
    pub release: u32,
    pub choke_group: Option<u16>,
}

/// What a zone is.
#[verifier::ext_equal]
pub struct ZoneModel {
    pub id: u128,
    pub name: Seq<char>,
    pub asset_id: u128,
    pub source_start: i64,
    pub source_duration: i64,
    pub root_note: u8,
    pub low_note: u8,
    pub high_note: u8,
    pub low_velocity: u8,
    pub high_velocity: u8,
    pub one_shot: bool,
    pub reverse: bool,
    pub gain: i32,
    pub velocity_sensitivity: u32,
    pub attack: u32,
    pub release: u32,
    pub choke_group: Option<u16>,
}

impl View for SamplerZone {
    type V = ZoneModel;

    open spec fn view(&self) -> ZoneModel {
        ZoneModel {
            id: self.id,
            name: self.name@,
            asset_id: self.asset_id,
            source_start: self.source_start,
            source_duration: self.source_duration,
            root_note: self.root_note,
            low_note: self.low_note,
            high_note: self.high_note,
            low_velocity: self.low_velocity,
            high_velocity: self.high_velocity,
            one_shot: self.one_shot,
            reverse: self.reverse,
            gain: self.gain,
            velocity_sensitivity: self.velocity_sensitivity,
            attack: self.attack,
            release: self.release,
            choke_group: self.choke_group,
        }
    }
}

/// What an optional zone is.
pub open spec fn zone_view(zone: Option<SamplerZone>) -> Option<ZoneModel> {
    match zone {
        Some(zone) => Some(zone@),
        None => None,
    }
}

/// What the zones of a track are.
pub open spec fn zones_view(zones: Seq<SamplerZone>) -> Seq<ZoneModel> {
    zones.map_values(|zone: SamplerZone| zone@)
}

impl SamplerZone {
    /// The same zone once more.
    pub fn copy(&self) -> (copy: SamplerZone)
        ensures
            copy@ == self@,
    {
        SamplerZone {
            id: self.id,
            name: String::from_str(self.name.as_str()),
            asset_id: self.asset_id,
            source_start: self.source_start,
            source_duration: self.source_duration,
            root_note: self.root_note,
            low_note: self.low_note,
            high_note: self.high_note,
            low_velocity: self.low_velocity,
            high_velocity: self.high_velocity,
            one_shot: self.one_shot,
            reverse: self.reverse,
            gain: self.gain,
            velocity_sensitivity: self.velocity_sensitivity,
            attack: self.attack,
            release: self.release,
            choke_group: self.choke_group,
        }
    }

    /// Whether two zones are the same.
    pub fn same(&self, other: &SamplerZone) -> (same: bool)
        ensures
            same == (self@ == other@),
    {
        self.id == other.id && self.name == other.name && self.asset_id == other.asset_id
            && self.source_start == other.source_start && self.source_duration
            == other.source_duration && self.root_note == other.root_note && self.low_note
            == other.low_note && self.high_note == other.high_note && self.low_velocity
            == other.low_velocity && self.high_velocity == other.high_velocity && self.one_shot
            == other.one_shot && self.reverse == other.reverse && self.gain == other.gain
            && self.velocity_sensitivity == other.velocity_sensitivity && self.attack
            == other.attack && self.release == other.release && self.choke_group
            == other.choke_group
    }
}

fn copy_zone(zone: Option<&SamplerZone>) -> (copy: Option<SamplerZone>)
    ensures
        zone_view(copy) == match zone {
            Some(zone) => Some(zone@),
            None => None,
        },
{
    match zone {
        Some(zone) => Some(zone.copy()),
        None => None,
    }
}

/// The place of the first zone with an id, or the number of zones.
pub open spec fn zone_place(zones: Seq<ZoneModel>, id: u128) -> int
    decreases zones.len(),
{
    if zones.len() == 0 {
        0
    } else if zones[0].id == id {
        0
    } else {
        1 + zone_place(zones.skip(1), id)
    }
}

/// The first zone with an id, if there is one.
pub open spec fn zone_of(zones: Seq<ZoneModel>, id: u128) -> Option<ZoneModel> {
    let place = zone_place(zones, id);
    if 0 <= place < zones.len() {
        Some(zones[place])
    } else {
        None
    }
}

/// The place of the first zone with an id, or the number of zones.
pub fn find_zone(zones: &Vec<SamplerZone>, id: u128) -> (place: usize)
    ensures
        place == zone_place(zones_view(zones@), id),
        place <= zones@.len(),
{
    let mut place: usize = 0;
    let ghost models = zones_view(zones@);
    assert(models.skip(0) =~= models);
    while place < zones.len()
        invariant
            place <= zones.len(),
            models == zones_view(zones@),
            zone_place(models, id) == place + zone_place(models.skip(place as int), id),
        decreases zones.len() - place,
    {
        let ghost rest = models.skip(place as int);
        assert(rest[0] == zones@[place as int]@);
        if zones[place].id == id {
            return place;
        }
        assert(rest.skip(1) =~= models.skip(place + 1));
        place += 1;
    }
    assert(models.skip(place as int).len() == 0);
    place
}

/// A change of a zone.
#[derive(Debug)]
pub enum ZoneEdit {
    Name(String),
    Asset(u128),
    SourceStart(i64),
    SourceDuration(i64),
    Root(u8),
    LowNote(u8),
    HighNote(u8),
    AllKeys,
    LowVelocity(u8),
    HighVelocity(u8),
    OneShot(bool),
    Reverse(bool),
    Gain(i32),
    Sensitivity(u32),
    Attack(u32),
    Release(u32),
    Choke(bool),
    ChokeGroup(u16),
}

/// A zone after a change; values that lie out of reach are brought to the nearest that
/// do not. The source of the zone is `duration` long.
pub open spec fn zone_after(zone: ZoneModel, edit: ZoneEdit, duration: int) -> ZoneModel {
    match edit {
        ZoneEdit::Name(name) => ZoneModel { name: name@, ..zone },
        ZoneEdit::Asset(id) => ZoneModel { asset_id: id, ..zone },
        ZoneEdit::SourceStart(time) => ZoneModel {
            source_start: clamped(time as int, 0, duration) as i64,
            ..zone
        },
        ZoneEdit::SourceDuration(time) => ZoneModel {
            source_duration: clamped(
                time as int,
                least(SHORTEST_RANGE as int, duration),
                duration,
            ) as i64,
            ..zone
        },
        ZoneEdit::Root(note) => ZoneModel { root_note: clamped(note as int, 0, 127) as u8, ..zone },
        ZoneEdit::LowNote(note) => ZoneModel {
            low_note: clamped(note as int, 0, zone.high_note as int) as u8,
            ..zone
        },
        ZoneEdit::HighNote(note) => ZoneModel {
            high_note: greatest(
                clamped(note as int, zone.low_note as int, 127),
                zone.low_note as int,
            ) as u8,
            ..zone
        },
        ZoneEdit::AllKeys => ZoneModel { low_note: 0, high_note: 127, ..zone },
        ZoneEdit::LowVelocity(velocity) => ZoneModel {
            low_velocity: clamped(velocity as int, 0, zone.high_velocity as int) as u8,
            ..zone
        },
        ZoneEdit::HighVelocity(velocity) => ZoneModel {
            high_velocity: greatest(
                clamped(velocity as int, zone.low_velocity as int, 127),
                zone.low_velocity as int,
            ) as u8,
            ..zone
        },
        ZoneEdit::OneShot(yes) => ZoneModel { one_shot: yes, ..zone },
        ZoneEdit::Reverse(yes) => ZoneModel { reverse: yes, ..zone },
        ZoneEdit::Gain(gain) => ZoneModel {
            gain: clamped(gain as int, SOFTEST as int, LOUDEST as int) as i32,
            ..zone
        },
        ZoneEdit::Sensitivity(value) => ZoneModel {
            velocity_sensitivity: clamped(value as int, 0, 1_000) as u32,
            ..zone
        },
        ZoneEdit::Attack(time) => ZoneModel {
            attack: clamped(time as int, 0, LONGEST_FADE as int) as u32,
            ..zone
        },
        ZoneEdit::Release(time) => ZoneModel {
            release: clamped(time as int, 0, LONGEST_FADE as int) as u32,
            ..zone
        },
        ZoneEdit::Choke(on) => ZoneModel {
            choke_group: if on {
                Some(1u16)
            } else {
                None
            },
            ..zone
        },
        ZoneEdit::ChokeGroup(group) => if zone.choke_group is Some {
            ZoneModel { choke_group: Some(group), ..zone }
        } else {
            zone
        },
    }
}

fn keep(value: i64, low: i64, high: i64) -> (kept: i64)
    requires
        low <= high,
    ensures
        kept == clamped(value as int, low as int, high as int),
{
    if value < low {
        low
    } else if value > high {
        high
    } else {
        value
    }
}

fn keep_top(value: u8, low: u8) -> (kept: u8)
    ensures
        kept == greatest(clamped(value as int, low as int, 127), low as int),
{
    if value < low {
        low
    } else if value > 127 {
        if low > 127 {
            low
        } else {
            127
        }
    } else {
        value
    }
}

impl SamplerZone {
    /// Performs a change.
    pub fn edit(&mut self, edit: ZoneEdit, duration: i64)
        requires
            duration >= 0,
        ensures
            final(self)@ == zone_after(old(self)@, edit, duration as int),
    {
        match edit {
            ZoneEdit::Name(name) => self.name = name,
            ZoneEdit::Asset(id) => self.asset_id = id,
            ZoneEdit::SourceStart(time) => self.source_start = keep(time, 0, duration),
            ZoneEdit::SourceDuration(time) => {
                let low: i64 = if SHORTEST_RANGE <= duration {
                    SHORTEST_RANGE
                } else {
                    duration
                };
                self.source_duration = keep(time, low, duration);
            },
            ZoneEdit::Root(note) => self.root_note = keep(note as i64, 0, 127) as u8,
            ZoneEdit::LowNote(note) => self.low_note = keep(
                note as i64,
                0,
                self.high_note as i64,
            ) as u8,
            ZoneEdit::HighNote(note) => self.high_note = keep_top(note, self.low_note),
            ZoneEdit::AllKeys => {
                self.low_note = 0;
                self.high_note = 127;
            },
            ZoneEdit::LowVelocity(velocity) => self.low_velocity = keep(
                velocity as i64,
                0,
                self.high_velocity as i64,
            ) as u8,
            ZoneEdit::HighVelocity(velocity) => self.high_velocity = keep_top(
                velocity,
                self.low_velocity,
            ),
            ZoneEdit::OneShot(yes) => self.one_shot = yes,
            ZoneEdit::Reverse(yes) => self.reverse = yes,
            ZoneEdit::Gain(gain) => self.gain = keep(
                gain as i64,
                SOFTEST as i64,
                LOUDEST as i64,
            ) as i32,
            ZoneEdit::Sensitivity(value) => self.velocity_sensitivity = keep(
                value as i64,
                0,
                1_000,
            ) as u32,
            ZoneEdit::Attack(time) => self.attack = keep(
                time as i64,
                0,
                LONGEST_FADE as i64,
            ) as u32,
            ZoneEdit::Release(time) => self.release = keep(
                time as i64,
                0,
                LONGEST_FADE as i64,
            ) as u32,
            ZoneEdit::Choke(on) => self.choke_group = if on {
                Some(1)
            } else {
                None
            },
            ZoneEdit::ChokeGroup(group) => {
                if self.choke_group.is_some() {
                    self.choke_group = Some(group);
                }
            },
        }
        assert(self@ =~= zone_after(old(self)@, edit, duration as int));
    }

    /// Brings the source range into a source, which may be another than before.
    pub fn fit_source(&mut self, duration: i64)
        requires
            0 <= duration,
        ensures
            final(self)@ == fitted_zone(old(self)@, duration as int),
    {
        self.source_start = keep(self.source_start, 0, duration);
        let rest: i64 = duration - self.source_start;
        let longest: i64 = if rest >= SHORTEST_RANGE {
            rest
        } else {
            SHORTEST_RANGE
        };
        self.source_duration = keep(self.source_duration, SHORTEST_RANGE, longest);
        assert(self@ =~= fitted_zone(old(self)@, duration as int));
    }

    /// Whether another key would play the zone too.
    pub fn lacks_keys(&self) -> (yes: bool)
        ensures
            yes == (self.low_note != 0 || self.high_note != 127),
    {
        self.low_note != 0 || self.high_note != 127
    }
}

/// A zone whose source range lies in its source, as far as the shortest range does.
pub open spec fn fitted_zone(zone: ZoneModel, duration: int) -> ZoneModel {
    let start = clamped(zone.source_start as int, 0, duration);
    ZoneModel {
        source_start: start as i64,
        source_duration: clamped(
            zone.source_duration as int,
            SHORTEST_RANGE as int,
            greatest(duration - start, SHORTEST_RANGE as int),
        ) as i64,
        ..zone
    }
}

/// The settings of an instrument that are not those of a zone.
#[derive(Clone, Copy, Debug, PartialEq, Eq, Structural)]
pub struct SamplerSettings {
    pub polyphony: u32,
    /// Which voice gives way: the oldest, the quietest, or that of the lowest velocity.
    pub voice_stealing: VoiceStealing,
    pub output_gain: i32,
}

/// What a track says of its instrument; what it does not say is none.
#[derive(Clone, Copy, Debug, PartialEq, Eq, Structural)]
pub struct TrackSettings {
    pub polyphony: Option<u32>,
    pub voice_stealing: Option<VoiceStealing>,
    pub output_gain: Option<i32>,
}

/// Where the settings of an instrument are edited.
#[derive(Clone, Copy, Debug, PartialEq, Eq, Structural)]
pub enum SettingsPlace {
    /// Above the list of zones.
    ZoneList,
    /// In the window that tunes one zone.
    Window,
}

/// The settings that are edited: the oldest voice gives way and the gain is none, unless the
/// track says otherwise. Without a number of voices the list starts from one, the window from
/// thirty-two.
pub open spec fn edited_settings(track: TrackSettings, place: SettingsPlace) -> SamplerSettings {
    SamplerSettings {
        polyphony: match (track.polyphony, place) {
            (Some(voices), _) => voices,
            (None, SettingsPlace::ZoneList) => 1,
            (None, SettingsPlace::Window) => 32,
        },
        voice_stealing: match track.voice_stealing {
            Some(rule) => rule,
            None => VoiceStealing::Oldest,
        },
        output_gain: match track.output_gain {
            Some(gain) => gain,
            None => 0,
        },
    }
}

fn settings_of(track: &TrackSettings, place: SettingsPlace) -> (settings: SamplerSettings)
    ensures
        settings == edited_settings(*track, place),
{
    SamplerSettings {
        polyphony: match track.polyphony {
            Some(voices) => voices,
            None => match place {
                SettingsPlace::ZoneList => 1,
                SettingsPlace::Window => 32,
            },
        },
        voice_stealing: match track.voice_stealing {
            Some(rule) => rule,
            None => VoiceStealing::Oldest,
        },
        output_gain: match track.output_gain {
            Some(gain) => gain,
            None => 0,
        },
    }
}

/// Which voice gives way when all are playing.
#[derive(Clone, Copy, Debug, PartialEq, Eq, Structural)]
pub enum VoiceStealing {
    Oldest,
    Quietest,
    LowestVelocity,
}

impl VoiceStealing {
    /// The name that the project knows it by.
    pub fn name(self) -> (name: &'static str)
        ensures
            name@ == match self {
                VoiceStealing::Oldest => "oldest"@,
                VoiceStealing::Quietest => "quietest"@,
                VoiceStealing::LowestVelocity => "lowest_velocity"@,
            },
    {
        match self {
            VoiceStealing::Oldest => "oldest",
            VoiceStealing::Quietest => "quietest",
            VoiceStealing::LowestVelocity => "lowest_velocity",
        }
    }
}

/// A change of the settings.
#[derive(Clone, Copy, Debug)]
pub enum SettingsEdit {
    Polyphony(u32),
    VoiceStealing(VoiceStealing),
    OutputGain(i32),
}

/// The settings after a change.
pub open spec fn settings_after(settings: SamplerSettings, edit: SettingsEdit) -> SamplerSettings {
    match edit {
        SettingsEdit::Polyphony(voices) => SamplerSettings {
            polyphony: clamped(voices as int, 1, MOST_VOICES as int) as u32,
            ..settings
        },
        SettingsEdit::VoiceStealing(rule) => SamplerSettings { voice_stealing: rule, ..settings },
        SettingsEdit::OutputGain(gain) => SamplerSettings {
            output_gain: clamped(gain as int, SOFTEST as int, LOUDEST as int) as i32,
            ..settings
        },
    }
}

/// What the list of zones asks for.
#[derive(Debug)]
pub enum ZoneListEvent {
    Settings(SettingsEdit),
    AddZone,
    SelectZone(usize),
    DeleteZone,
    /// A change of the selected zone; the source it then has is this long.
    Edit { edit: ZoneEdit, duration: i64 },
}

/// What is to be done with the zones of a track.
#[derive(Debug)]
pub enum ZoneListAction {
    Nothing,
    UpdateSettings(SamplerSettings),
    AddZone,
    RemoveZone(usize),
    UpdateZone { index: usize, zone: SamplerZone },
}

/// The place of the selected zone in a list that may have become shorter.
pub open spec fn selected_place(selected: usize, count: nat) -> usize {
    if count == 0 {
        0
    } else if selected < count {
        selected
    } else {
        (count - 1) as usize
    }
}

/// Performs an event of the list of zones: `selected` is the place of the selected zone.
pub fn sampler_editor(
    selected: &mut usize,
    zones: &Vec<SamplerZone>,
    track: &TrackSettings,
    event: ZoneListEvent,
) -> (action: ZoneListAction)
    requires
        event matches ZoneListEvent::Edit { duration, .. } ==> duration >= 0,
    ensures
        ({
            let place = selected_place(*old(selected), zones@.len());
            match event {
                ZoneListEvent::Settings(edit) => {
                    &&& *final(selected) == place
                    &&& action == ZoneListAction::UpdateSettings(
                        settings_after(edited_settings(*track, SettingsPlace::ZoneList), edit),
                    )
                },
                ZoneListEvent::AddZone => *final(selected) == place && action is AddZone,
                ZoneListEvent::SelectZone(index) => {
                    &&& *final(selected) == if index < zones@.len() {
                        index
                    } else {
                        place
                    }
                    &&& action is Nothing
                },
                ZoneListEvent::DeleteZone => if zones@.len() == 0 {
                    *final(selected) == place && action is Nothing
                } else {
                    &&& *final(selected) == if place > 0 {
                        (place - 1) as usize
                    } else {
                        0
                    }
                    &&& action == ZoneListAction::RemoveZone(place)
                },
                ZoneListEvent::Edit { edit, duration } => {
                    &&& *final(selected) == place
                    &&& if zones@.len() == 0 {
                        action is Nothing
                    } else {
                        action matches ZoneListAction::UpdateZone { index, zone } && index == place
                            && zone@ == fitted_zone(
                            zone_after(zones@[place as int]@, edit, duration as int),
                            duration as int,
                        )
                    }
                },
            }
        }),
{
    let count: usize = zones.len();
    if count == 0 {
        *selected = 0;
    } else if *selected >= count {
        *selected = count - 1;
    }
    let place: usize = *selected;
    match event {
        ZoneListEvent::Settings(edit) => {
            let settings = settings_of(track, SettingsPlace::ZoneList);
            ZoneListAction::UpdateSettings(settle(settings, edit))
        },
        ZoneListEvent::AddZone => ZoneListAction::AddZone,
        ZoneListEvent::SelectZone(index) => {
            if index < count {
                *selected = index;
            }
            ZoneListAction::Nothing
        },
        ZoneListEvent::DeleteZone => {
            if count == 0 {
                ZoneListAction::Nothing
            } else {
                *selected = if place > 0 {
                    place - 1
                } else {
                    0
                };
                ZoneListAction::RemoveZone(place)
            }
        },
        ZoneListEvent::Edit { edit, duration } => {
            if count == 0 {
                ZoneListAction::Nothing
            } else {
                let mut zone = zones[place].copy();
                zone.edit(edit, duration);
                zone.fit_source(duration);
                ZoneListAction::UpdateZone { index: place, zone }
            }
        },
    }
}

/// The title of the list of zones.
pub fn zones_title(count: u64) -> (text: String)
    ensures
        text@ == decimal(count as nat) + " zones · canonical instrument state"@,
{
    let mut text = String::new();
    push_decimal(&mut text, count);
    text.append(" zones · canonical instrument state");
    assert(text@ =~= decimal(count as nat) + " zones · canonical instrument state"@);
    text
}

/// How long a recording is: by its frames where they are known.
pub open spec fn source_length(frames: u64, sample_rate: u32, duration: i64) -> int {
    if frames > 0 && sample_rate > 0 {
        frames as int * 1_000_000_000 / (sample_rate as int)
    } else {
        greatest(duration as int, 0)
    }
}

/// How long a recording is, as far as a time reaches.
pub fn source_duration(frames: u64, sample_rate: u32, duration: i64) -> (length: i64)
    ensures
        length == least(source_length(frames, sample_rate, duration), i64::MAX as int),
{
    if frames > 0 && sample_rate > 0 {
        let length: u128 = frames as u128 * 1_000_000_000 / sample_rate as u128;
        if length > i64::MAX as u128 {
            i64::MAX
        } else {
            length as i64
        }
    } else if duration <= 0 {
        0
    } else {
        duration
    }
}

/// The window that tunes one zone of an instrument.
#[derive(Debug)]
pub struct SamplerEditor {
    pub track_id: u128,
    pub zone_id: Option<u128>,
    /// The zone as the user has it so far.
    pub draft: Option<SamplerZone>,
    /// The zone as the project has it.
    pub baseline: Option<SamplerZone>,
    pub query: String,
    /// The file that is listened to.
    pub preview_path: Option<String>,
    /// The range that plays as soon as the file is there.
    pub preview_pending: Option<(i64, i64)>,
    /// Counts the zones that the waveform has shown.
    pub waveform_revision: u64,
    pub error: Option<String>,
}

/// What the window is about.
#[verifier::ext_equal]
pub struct EditorModel {
    pub track_id: u128,
    pub zone_id: Option<u128>,
    pub draft: Option<ZoneModel>,
    pub baseline: Option<ZoneModel>,
    pub query: Seq<char>,
    pub preview_path: Option<Seq<char>>,
    pub preview_pending: Option<(i64, i64)>,
    pub waveform_revision: u64,
    pub error: Option<Seq<char>>,
}

impl View for SamplerEditor {
    type V = EditorModel;

    open spec fn view(&self) -> EditorModel {
        EditorModel {
            track_id: self.track_id,
            zone_id: self.zone_id,
            draft: zone_view(self.draft),
            baseline: zone_view(self.baseline),
            query: self.query@,
            preview_path: text_view(self.preview_path),
            preview_pending: self.preview_pending,
            waveform_revision: self.waveform_revision,
            error: text_view(self.error),
        }
    }
}

/// The next count of zones shown; counts start over at their end.
pub open spec fn next_revision(revision: u64) -> u64 {
    if revision == u64::MAX {
        0
    } else {
        (revision + 1) as u64
    }
}

/// The window after a zone was chosen.
pub open spec fn choosing(editor: EditorModel, zone: Option<ZoneModel>) -> EditorModel {
    EditorModel {
        zone_id: match zone {
            Some(zone) => Some(zone.id),
            None => None,
        },
        draft: zone,
        baseline: zone,
        waveform_revision: next_revision(editor.waveform_revision),
        error: None,
        ..editor
    }
}

/// The first zone of a track.
pub open spec fn first_zone(zones: Seq<ZoneModel>) -> Option<ZoneModel> {
    if zones.len() == 0 {
        None
    } else {
        Some(zones[0])
    }
}

/// The zone of the project that the window is about.
pub open spec fn wanted_zone(editor: EditorModel, zones: Seq<ZoneModel>) -> Option<ZoneModel> {
    match editor.zone_id {
        Some(id) => zone_of(zones, id),
        None => None,
    }
}

/// The window brought up to the project: a zone that is gone gives way to the first one,
/// and one that was changed elsewhere replaces the draft.
pub open spec fn synced(editor: EditorModel, zones: Seq<ZoneModel>) -> EditorModel {
    let zone = wanted_zone(editor, zones);
    if editor.zone_id is Some && zone is None {
        choosing(editor, first_zone(zones))
    } else if zone != editor.baseline {
        EditorModel {
            draft: zone,
            baseline: zone,
            waveform_revision: next_revision(editor.waveform_revision),
            ..editor
        }
    } else {
        editor
    }
}

/// What is known of the file that is listened to.
#[derive(Debug)]
pub struct PreviewState {
    pub loading: bool,
    pub playing: bool,
    pub position: i64,
    pub error: Option<String>,
}

/// The window after a range was asked for, the file being in this state.
pub open spec fn after_play(
    editor: EditorModel,
    status: Option<PreviewState>,
    range: (i64, i64),
) -> EditorModel {
    match status {
        Some(state) => match state.error {
            Some(error) => EditorModel {
                preview_pending: None,
                error: Some(error@),
                ..editor
            },
            None => if state.loading {
                EditorModel { preview_pending: Some(range), ..editor }
            } else {
                EditorModel { preview_pending: None, ..editor }
            },
        },
        None => EditorModel { preview_pending: Some(range), ..editor },
    }
}

/// The file is there and can play.
pub open spec fn can_play(status: Option<PreviewState>) -> bool {
    status matches Some(state) && state.error is None && !state.loading
}

/// The file has to be asked for: it is another, or it failed.
pub open spec fn must_begin(editor: EditorModel, path: Seq<char>, status: Option<PreviewState>)
    -> bool {
    editor.preview_path != Some(path) || (status is None || status->0.error is Some)
}

fn copied_error(error: &Option<String>) -> (copy: Option<String>)
    ensures
        text_view(copy) == text_view(*error),
{
    match error {
        Some(error) => Some(String::from_str(error.as_str())),
        None => None,
    }
}

fn following(revision: u64) -> (next: u64)
    ensures
        next == next_revision(revision),
{
    if revision == u64::MAX {
        0
    } else {
        revision + 1
    }
}

impl SamplerEditor {
    /// Opens the window on the first zone of a track, if the track has a sampler.
    pub fn open(track_id: u128, has_sampler: bool, zones: &Vec<SamplerZone>) -> (editor: Option<
        SamplerEditor,
    >)
        ensures
            match editor {
                Some(editor) => has_sampler && editor@ == (EditorModel {
                    track_id,
                    zone_id: match first_zone(zones_view(zones@)) {
                        Some(zone) => Some(zone.id),
                        None => None,
                    },
                    draft: first_zone(zones_view(zones@)),
                    baseline: first_zone(zones_view(zones@)),
                    query: Seq::empty(),
                    preview_path: None,
                    preview_pending: None,
                    waveform_revision: 0,
                    error: None,
                }),
                None => !has_sampler,
            },
    {
        if !has_sampler {
            return None;
        }
        let first = if zones.len() > 0 {
            Some(&zones[0])
        } else {
            None
        };
        let editor = SamplerEditor {
            track_id,
            zone_id: match first {
                Some(zone) => Some(zone.id),
                None => None,
            },
            draft: copy_zone(first),
            baseline: copy_zone(first),
            query: String::new(),
            preview_path: None,
            preview_pending: None,
            waveform_revision: 0,
            error: None,
        };
        assert(editor@.query =~= Seq::empty());
        Some(editor)
    }

    /// Brings the window up to the zones of its track.
    pub fn sync(&mut self, zones: &Vec<SamplerZone>)
        ensures
            final(self)@ == synced(old(self)@, zones_view(zones@)),
    {
        let place: usize = match self.zone_id {
            Some(id) => find_zone(zones, id),
            None => zones.len(),
        };
        if self.zone_id.is_some() && place >= zones.len() {
            if zones.len() > 0 {
                self.select_zone(Some(&zones[0]));
            } else {
                self.select_zone(None);
            }
            return;
        }
        let zone = if place < zones.len() {
            Some(&zones[place])
        } else {
            None
        };
        let unchanged = match (zone, &self.baseline) {
            (Some(zone), Some(baseline)) => zone.same(baseline),
            (None, None) => true,
            _ => false,
        };
        if !unchanged {
            self.draft = copy_zone(zone);
            self.baseline = copy_zone(zone);
            self.waveform_revision = following(self.waveform_revision);
        }
        assert(self@ =~= synced(old(self)@, zones_view(zones@)));
    }

    /// Turns to a zone, or to a new one.
    pub fn select_zone(&mut self, zone: Option<&SamplerZone>)
        ensures
            final(self)@ == choosing(
                old(self)@,
                match zone {
                    Some(zone) => Some(zone@),
                    None => None,
                },
            ),
    {
        self.zone_id = match zone {
            Some(zone) => Some(zone.id),
            None => None,
        };
        self.draft = copy_zone(zone);
        self.baseline = copy_zone(zone);
        self.waveform_revision = following(self.waveform_revision);
        self.error = None;
    }

    /// Brings the window up to its track, and says whether what is heard has to stop: it
    /// is no longer that of the zone.
    pub fn refresh(&mut self, zones: &Vec<SamplerZone>) -> (stop: bool)
        ensures
            ({
                let after = synced(old(self)@, zones_view(zones@));
                let asset = |zone: Option<ZoneModel>|
                    match zone {
                        Some(zone) => Some(zone.asset_id),
                        None => None,
                    };
                &&& stop == (asset(old(self)@.baseline) != asset(after.baseline))
                &&& final(self)@ == if stop {
                    EditorModel { preview_pending: None, ..after }
                } else {
                    after
                }
            }),
    {
        let before: Option<u128> = match &self.baseline {
            Some(zone) => Some(zone.asset_id),
            None => None,
        };
        self.sync(zones);
        let after: Option<u128> = match &self.baseline {
            Some(zone) => Some(zone.asset_id),
            None => None,
        };
        if before != after {
            self.preview_pending = None;
            true
        } else {
            false
        }
    }

    /// Whether the layers are offered for choice: more than one, or one beside a new one.
    pub fn offers_layers(&self, layers: usize) -> (yes: bool)
        ensures
            yes == (layers > 1 || (layers > 0 && self.zone_id is None)),
    {
        layers > 1 || (layers > 0 && self.zone_id.is_none())
    }

    /// Turns to the layer with an id; what is heard stops. Another choice of the same layer
    /// changes nothing.
    pub fn choose_layer(&mut self, zones: &Vec<SamplerZone>, chosen: Option<u128>) -> (stop: bool)
        ensures
            stop == (chosen != old(self).zone_id),
            final(self)@ == if stop {
                choosing(
                    EditorModel { preview_pending: None, ..old(self)@ },
                    match chosen {
                        Some(id) => zone_of(zones_view(zones@), id),
                        None => None,
                    },
                )
            } else {
                old(self)@
            },
    {
        if chosen == self.zone_id {
            return false;
        }
        self.preview_pending = None;
        let place: usize = match chosen {
            Some(id) => find_zone(zones, id),
            None => zones.len(),
        };
        if place < zones.len() {
            self.select_zone(Some(&zones[place]));
        } else {
            self.select_zone(None);
        }
        true
    }

    /// Whether a click on a recording takes it: one that is there, and not the one in use.
    pub fn takes(&self, asset_id: u128, available: bool) -> (yes: bool)
        ensures
            yes == (available && !(self@.draft matches Some(zone) && zone.asset_id == asset_id)),
    {
        available && match &self.draft {
            Some(zone) => zone.asset_id != asset_id,
            None => true,
        }
    }

    /// The project gave the zone its recording, or made a zone for it, or did not.
    pub fn assigned(&mut self, result: Result<u128, String>)
        ensures
            final(self)@ == match result {
                Ok(zone_id) => EditorModel {
                    zone_id: Some(zone_id),
                    draft: None,
                    baseline: None,
                    error: None,
                    ..old(self)@
                },
                Err(error) => EditorModel { error: Some(error@), ..old(self)@ },
            },
    {
        match result {
            Ok(zone_id) => {
                self.zone_id = Some(zone_id);
                self.draft = None;
                self.baseline = None;
                self.error = None;
            },
            Err(error) => self.error = Some(error),
        }
    }

    /// Keeps the draft of the zone that the window is about, and says where in the project
    /// it is to be changed, if it was changed.
    pub fn keep_draft(&mut self, zone: SamplerZone, changed: bool, zones: &Vec<SamplerZone>) -> (
        place: Option<usize>)
        ensures
            ({
                let own = old(self).zone_id == Some(zone.id);
                let found = zone_place(zones_view(zones@), zone.id);
                &&& final(self)@ == if own {
                    EditorModel { draft: Some(zone@), ..old(self)@ }
                } else {
                    old(self)@
                }
                &&& place == if own && changed && found < zones@.len() {
                    Some(found as usize)
                } else {
                    None
                }
            }),
    {
        if self.zone_id != Some(zone.id) {
            return None;
        }
        let id: u128 = zone.id;
        self.draft = Some(zone);
        if !changed {
            return None;
        }
        let place: usize = find_zone(zones, id);
        if place < zones.len() {
            Some(place)
        } else {
            None
        }
    }

    /// The project took a change of the zone: what it kept is the draft now.
    pub fn saved(&mut self, zone: &SamplerZone, error: Option<String>)
        ensures
            final(self)@ == (EditorModel {
                draft: Some(zone@),
                baseline: Some(zone@),
                error: text_view(error),
                ..old(self)@
            }),
    {
        self.draft = Some(zone.copy());
        self.baseline = Some(zone.copy());
        self.error = error;
    }

    /// Asks for a file to listen to, and says whether it has to be opened first.
    pub fn preview_sampler_slice(&mut self, path: &str, status: &Option<PreviewState>) -> (begin:
        bool)
        ensures
            begin == must_begin(old(self)@, path@, *status),
            final(self)@ == (EditorModel {
                error: None,
                preview_path: Some(path@),
                ..old(self)@
            }),
    {
        self.error = None;
        let same = match &self.preview_path {
            Some(current) => crate::text::same_text(current.as_str(), path),
            None => false,
        };
        let failed = match status {
            Some(state) => state.error.is_some(),
            None => true,
        };
        if same && !failed {
            return false;
        }
        self.preview_path = Some(String::from_str(path));
        true
    }

    /// Plays a range now, or as soon as the file is there.
    pub fn play_slice(&mut self, status: &Option<PreviewState>, start: i64, end: i64) -> (play:
        bool)
        ensures
            play == can_play(*status),
            final(self)@ == after_play(old(self)@, *status, (start, end)),
    {
        match status {
            Some(state) => {
                if state.error.is_some() {
                    self.preview_pending = None;
                    self.error = copied_error(&state.error);
                    false
                } else if state.loading {
                    self.preview_pending = Some((start, end));
                    false
                } else {
                    self.preview_pending = None;
                    true
                }
            },
            None => {
                self.preview_pending = Some((start, end));
                false
            },
        }
    }

    /// Plays the range that waits, if the file has come; a file that failed is reported.
    pub fn start_pending(&mut self, status: &Option<PreviewState>) -> (range: Option<(i64, i64)>)
        ensures
            ({
                let ready = old(self).preview_pending is Some && (*status matches Some(state)
                    && !state.loading);
                &&& !ready ==> range is None && final(self)@ == old(self)@
                &&& ready ==> match status->0.error {
                    Some(error) => range is None && final(self)@ == (EditorModel {
                        preview_pending: None,
                        error: Some(error@),
                        ..old(self)@
                    }),
                    None => range == old(self).preview_pending && final(self)@ == (EditorModel {
                        preview_pending: None,
                        ..old(self)@
                    }),
                }
            }),
    {
        match status {
            Some(state) => {
                if self.preview_pending.is_none() || state.loading {
                    return None;
                }
                let range = self.preview_pending;
                self.preview_pending = None;
                if state.error.is_some() {
                    self.error = copied_error(&state.error);
                    None
                } else {
                    range
                }
            },
            None => None,
        }
    }

    /// Nothing waits to be heard any longer.
    pub fn stop_sampler_preview(&mut self)
        ensures
            final(self)@ == (EditorModel { preview_pending: None, ..old(self)@ }),
    {
        self.preview_pending = None;
    }

    /// Whether closing the window closes a file that was listened to.
    pub fn end_sampler_preview(&self) -> (ends: bool)
        ensures
            ends == (self@.preview_path is Some),
    {
        self.preview_path.is_some()
    }

    /// What the play button shows.
    pub fn playback(
        &self,
        media_path: &Option<String>,
        status: &Option<PreviewState>,
        connected: bool,
        start: i64,
    ) -> (playback: Playback)
        ensures
            playback == playback_of(self@, *media_path, *status, connected, start),
    {
        let matching = match (&self.preview_path, media_path) {
            (Some(current), Some(path)) => crate::text::same_text(current.as_str(), path.as_str()),
            _ => false,
        };
        let (playing, loading, position) = match status {
            Some(state) => (
                matching && state.playing,
                matching && state.loading,
                if matching {
                    state.position
                } else {
                    start
                },
            ),
            None => (false, false, start),
        };
        Playback {
            available: media_path.is_some() && connected,
            active: playing || self.preview_pending.is_some(),
            loading,
            position,
            heard: matching && status.is_some(),
        }
    }
}

/// What the play button shows.
#[derive(Clone, Copy, Debug, PartialEq, Eq, Structural)]
pub struct Playback {
    pub available: bool,
    /// The button stops.
    pub active: bool,
    pub loading: bool,
    pub position: i64,
    /// The position is that of this recording.
    pub heard: bool,
}

/// What the play button shows.
pub open spec fn playback_of(
    editor: EditorModel,
    media_path: Option<String>,
    status: Option<PreviewState>,
    connected: bool,
    start: i64,
) -> Playback {
    let matching = editor.preview_path is Some && media_path is Some && editor.preview_path
        == text_view(media_path);
    Playback {
        available: media_path is Some && connected,
        active: (matching && status is Some && status->0.playing) || editor.preview_pending is Some,
        loading: matching && status is Some && status->0.loading,
        position: if matching && status is Some {
            status->0.position
        } else {
            start
        },
        heard: matching && status is Some,
    }
}

/// Whether the play button is used: clicked, or by the space key while nothing is typed,
/// no menu is open and the key is not just held.
pub fn sampler_playback_controls(
    available: bool,
    typing: bool,
    menu_open: bool,
    space: bool,
    repeated: bool,
    clicked: bool,
) -> (toggled: bool)
    ensures
        toggled == (clicked && available || (available && !typing && !menu_open && space
            && !repeated)),
{
    available && (clicked || (!typing && !menu_open && space && !repeated))
}

/// The slice of a zone in its source.
pub fn zone_slice(zone: &SamplerZone, duration: i64) -> (slice: Slice)
    ensures
        slice.start == zone.source_start,
        slice.end == clamped(
            zone.source_start + zone.source_duration,
            i64::MIN as int,
            duration as int,
        ),
{
    let end: i128 = zone.source_start as i128 + zone.source_duration as i128;
    let kept: i64 = if end < i64::MIN as i128 {
        i64::MIN
    } else if end > duration as i128 {
        duration
    } else {
        end as i64
    };
    Slice { start: zone.source_start, end: kept }
}

/// The range to listen to from a position: to the end of the slice from within it, to the
/// end of the recording from elsewhere, and never nothing.
pub open spec fn listening(position: int, slice: Slice, duration: int, shortest: int) -> (int, int) {
    let until = if slice.start <= position < slice.end {
        slice.end as int
    } else {
        duration
    };
    (greatest(least(position, until - shortest), 0), until)
}

/// The range to listen to from a position.
pub fn listen_from(position: i64, slice: &Slice, duration: i64, shortest: i64) -> (range: (
    i64,
    i64,
))
    requires
        0 <= slice.start <= slice.end <= duration,
        0 < shortest <= duration,
    ensures
        (range.0 as int, range.1 as int) == listening(
            position as int,
            *slice,
            duration as int,
            shortest as int,
        ),
{
    let until: i64 = if slice.start <= position && position < slice.end {
        slice.end
    } else {
        duration
    };
    let latest: i64 = until - shortest;
    let start: i64 = if position < latest {
        position
    } else {
        latest
    };
    (
        if start < 0 {
            0
        } else {
            start
        },
        until,
    )
}

/// The length of a frame, which is never nothing.
pub open spec fn frame_length(sample_rate: int) -> int {
    greatest(1_000_000_000int / greatest(sample_rate, 1), 1)
}

/// The shortest slice of a recording: a frame, or all of it.
pub fn shortest_slice(sample_rate: u32, duration: i64) -> (length: i64)
    requires
        duration > 0,
    ensures
        length == least(frame_length(sample_rate as int), duration as int),
        0 < length <= duration,
{
    let rate: i64 = if sample_rate == 0 {
        1
    } else {
        sample_rate as i64
    };
    let frame: i64 = 1_000_000_000 / rate;
    assert(0 <= frame) by (nonlinear_arith)
        requires
            frame == 1_000_000_000int / (rate as int),
            rate >= 1,
    ;
    assert(rate <= 1_000_000_000 ==> frame >= 1) by (nonlinear_arith)
        requires
            frame == 1_000_000_000int / (rate as int),
            rate >= 1,
    ;
    if frame < 1 {
        1
    } else if frame > duration {
        duration
    } else {
        frame
    }
}

/// The recording of the zone in the window.
#[derive(Clone, Copy, Debug)]
pub struct SampleSource {
    pub duration: i64,
    /// The shortest slice.
    pub shortest: i64,
}

/// What the user does with the zone in the window.
#[derive(Debug)]
pub enum SampleEvent {
    /// The play button was used, while it stops or plays.
    Toggle { active: bool },
    /// The slice was drawn on the waveform; it counts once the pointer lets go.
    Slice { slice: Slice, finished: bool },
    /// Listen from a position.
    Seek(i64),
    /// The slice starts elsewhere; it counts unless the field is still dragged.
    Start { time: i64, finished: bool },
    End { time: i64, finished: bool },
    /// Use the whole recording.
    Full,
    Edit(ZoneEdit),
    RemoveLayer,
    Settings(SettingsEdit),
}

/// What is to be done.
#[derive(Debug)]
pub enum SampleAction {
    Nothing,
    StopPreview,
    /// Listen to a range.
    Preview { start: i64, end: i64 },
    UpdateZone { index: usize, zone: SamplerZone },
    RemoveZone(usize),
    UpdateSettings(SamplerSettings),
}

/// The slice of a zone.
pub open spec fn slice_view(zone: ZoneModel, duration: int) -> Slice {
    Slice {
        start: zone.source_start,
        end: clamped(
            zone.source_start + zone.source_duration,
            i64::MIN as int,
            duration,
        ) as i64,
    }
}

/// A zone with another slice.
pub open spec fn resliced(zone: ZoneModel, start: int, end: int) -> ZoneModel {
    ZoneModel { source_start: start as i64, source_duration: (end - start) as i64, ..zone }
}

/// A zone whose slice lies in its recording.
pub open spec fn sliced(zone: ZoneModel, source: SampleSource) -> bool {
    let slice = slice_view(zone, source.duration as int);
    0 <= slice.start && slice.start + source.shortest <= slice.end && slice.end <= source.duration
}

/// The slice that the window shows of a zone: the zone's own, brought into the recording.
pub open spec fn shown_slice(zone: ZoneModel, source: SampleSource) -> Slice {
    fitted(
        slice_view(zone, source.duration as int),
        SliceSource { duration: source.duration, min_length: source.shortest },
    )
}

/// What an event makes of the zone, and whether the project is to take it over.
pub open spec fn sampled(zone: ZoneModel, event: SampleEvent, source: SampleSource) -> (
    ZoneModel,
    bool,
) {
    let slice = shown_slice(zone, source);
    let shown = resliced(zone, slice.start as int, slice.end as int);
    match event {
        SampleEvent::Slice { slice: drawn, finished } => (
            resliced(zone, drawn.start as int, drawn.end as int),
            finished,
        ),
        SampleEvent::Start { time, finished } => (
            resliced(
                zone,
                clamped(time as int, 0, greatest(slice.end - source.shortest, 0)),
                slice.end as int,
            ),
            finished,
        ),
        SampleEvent::End { time, finished } => (
            resliced(
                zone,
                slice.start as int,
                clamped(time as int, slice.start + source.shortest, source.duration as int),
            ),
            finished,
        ),
        SampleEvent::Full => (resliced(zone, 0, source.duration as int), true),
        SampleEvent::Edit(edit) => (zone_after(shown, edit, source.duration as int), true),
        _ => (shown, false),
    }
}

/// What an event asks for of the project, the zone being in the window.
pub open spec fn sample_action(
    editor: EditorModel,
    zone: ZoneModel,
    zones: Seq<ZoneModel>,
    track: TrackSettings,
    event: SampleEvent,
    source: SampleSource,
    action: SampleAction,
) -> bool {
    let slice = slice_view(zone, source.duration as int);
    let place = zone_place(zones, zone.id);
    match event {
        SampleEvent::Toggle { active } => if active {
            action is StopPreview
        } else {
            action == (SampleAction::Preview { start: slice.start, end: slice.end })
        },
        SampleEvent::Seek(position) => {
            let range = listening(
                position as int,
                shown_slice(zone, source),
                source.duration as int,
                source.shortest as int,
            );
            action == (SampleAction::Preview { start: range.0 as i64, end: range.1 as i64 })
        },
        SampleEvent::RemoveLayer => if place < zones.len() {
            action == SampleAction::RemoveZone(place as usize)
        } else {
            action is Nothing
        },
        SampleEvent::Settings(edit) => action == SampleAction::UpdateSettings(
            settings_after(edited_settings(track, SettingsPlace::Window), edit),
        ),
        _ => {
            let (after, commit) = sampled(zone, event, source);
            if commit && editor.zone_id == Some(zone.id) && place < zones.len() {
                action matches SampleAction::UpdateZone { index, zone: changed } && index == place
                    && changed@ == after
            } else {
                action is Nothing
            }
        },
    }
}

/// The window after an event. A layer that is removed leaves the window as it was until
/// [`SamplerEditor::layer_removed`].
pub open spec fn window_after(
    editor: EditorModel,
    zone: ZoneModel,
    zones: Seq<ZoneModel>,
    event: SampleEvent,
    source: SampleSource,
) -> EditorModel {
    let quieted = if event == (SampleEvent::Toggle { active: true }) {
        EditorModel { preview_pending: None, ..editor }
    } else {
        editor
    };
    if event is RemoveLayer && zone_place(zones, zone.id) < zones.len() {
        editor
    } else if editor.zone_id == Some(zone.id) {
        EditorModel { draft: Some(sampled(zone, event, source).0), ..quieted }
    } else {
        quieted
    }
}

fn settle(settings: SamplerSettings, edit: SettingsEdit) -> (changed: SamplerSettings)
    ensures
        changed == settings_after(settings, edit),
{
    let mut changed = settings;
    match edit {
        SettingsEdit::Polyphony(voices) => {
            changed.polyphony = crate::transport::clamp(voices, 1, MOST_VOICES);
        },
        SettingsEdit::VoiceStealing(rule) => {
            changed.voice_stealing = rule;
        },
        SettingsEdit::OutputGain(gain) => {
            changed.output_gain = keep(gain as i64, SOFTEST as i64, LOUDEST as i64) as i32;
        },
    }
    changed
}

impl SamplerZone {
    fn reslice(&mut self, start: i64, end: i64)
        requires
            0 <= start,
            0 <= end,
        ensures
            final(self)@ == resliced(old(self)@, start as int, end as int),
    {
        self.source_start = start;
        self.source_duration = end - start;
        assert(self@ =~= resliced(old(self)@, start as int, end as int));
    }
}

/// The numbers of an event lie in the recording.
pub open spec fn event_fits(event: SampleEvent, source: SampleSource) -> bool {
    event matches SampleEvent::Slice { slice, .. } ==> 0 <= slice.start <= slice.end
        <= source.duration
}

impl SamplerEditor {
    /// Performs an event on the zone in the window. The draft follows at once, and always
    /// has a slice of the recording; the project takes a change over once it is finished.
    pub fn sampler_sample_controls(
        &mut self,
        zones: &Vec<SamplerZone>,
        track: &TrackSettings,
        event: SampleEvent,
        source: &SampleSource,
    ) -> (action: SampleAction)
        requires
            0 < source.shortest <= source.duration,
            event_fits(event, *source),
        ensures
            match old(self)@.draft {
                None => action is Nothing && final(self)@ == old(self)@,
                Some(zone) => {
                    &&& final(self)@ == window_after(
                        old(self)@,
                        zone,
                        zones_view(zones@),
                        event,
                        *source,
                    )
                    &&& sample_action(
                        old(self)@,
                        zone,
                        zones_view(zones@),
                        *track,
                        event,
                        *source,
                        action,
                    )
                },
            },
    {
        let mut zone = match &self.draft {
            Some(zone) => zone.copy(),
            None => return SampleAction::Nothing,
        };
        let ghost model = zone@;
        let own = zone_slice(&zone, source.duration);
        assert(own == slice_view(model, source.duration as int));
        let slice = fit(
            &own,
            &SliceSource { duration: source.duration, min_length: source.shortest },
        );
        assert(slice == shown_slice(model, *source));
        let place: usize = find_zone(zones, zone.id);
        let mut action = SampleAction::Nothing;
        let mut finished = false;
        zone.reslice(slice.start, slice.end);
        match event {
            SampleEvent::Toggle { active } => {
                if active {
                    self.preview_pending = None;
                    action = SampleAction::StopPreview;
                } else {
                    action = SampleAction::Preview { start: own.start, end: own.end };
                }
            },
            SampleEvent::Seek(position) => {
                let range = listen_from(position, &slice, source.duration, source.shortest);
                action = SampleAction::Preview { start: range.0, end: range.1 };
            },
            SampleEvent::RemoveLayer => {
                if place < zones.len() {
                    return SampleAction::RemoveZone(place);
                }
            },
            SampleEvent::Settings(edit) => {
                let settings = settings_of(track, SettingsPlace::Window);
                action = SampleAction::UpdateSettings(settle(settings, edit));
            },
            SampleEvent::Slice { slice: drawn, finished: done } => {
                zone.reslice(drawn.start, drawn.end);
                finished = done;
            },
            SampleEvent::Start { time, finished: done } => {
                zone.reslice(keep(time, 0, slice.end - source.shortest), slice.end);
                finished = done;
            },
            SampleEvent::End { time, finished: done } => {
                zone.reslice(
                    slice.start,
                    keep(time, slice.start + source.shortest, source.duration),
                );
                finished = done;
            },
            SampleEvent::Full => {
                zone.reslice(0, source.duration);
                finished = true;
            },
            SampleEvent::Edit(edit) => {
                zone.edit(edit, source.duration);
                finished = true;
            },
        }
        assert(zone@ == sampled(model, event, *source).0);
        if self.zone_id != Some(zone.id) {
            return action;
        }
        self.draft = Some(zone.copy());
        if finished && place < zones.len() {
            SampleAction::UpdateZone { index: place, zone }
        } else {
            action
        }
    }

    /// A layer was removed: the window turns to the first of the others.
    pub fn layer_removed(&mut self, zones: &Vec<SamplerZone>)
        ensures
            final(self)@ == (EditorModel {
                preview_pending: None,
                ..choosing(old(self)@, first_zone(zones_view(zones@)))
            }),
    {
        if zones.len() > 0 {
            self.select_zone(Some(&zones[0]));
        } else {
            self.select_zone(None);
        }
        self.preview_pending = None;
    }
}

/// The recordings whose names hold what is searched for, whatever its case.
pub open spec fn found(names: Seq<String>, query: Seq<char>, count: nat) -> Seq<usize>
    decreases count,
{
    if count == 0 {
        Seq::empty()
    } else {
        let before = found(names, query, (count - 1) as nat);
        if occurs_in(lower_of(names[count - 1]@), lower_of(query)) {
            before.push((count - 1) as usize)
        } else {
            before
        }
    }
}

/// The places of the recordings that a search lists.
pub fn sampler_asset_picker(names: &Vec<String>, query: &str) -> (places: Vec<usize>)
    ensures
        places@ == found(names@, query@, names@.len()),
{
    let wanted = lower_text(query);
    let mut places: Vec<usize> = Vec::new();
    let mut index: usize = 0;
    while index < names.len()
        invariant
            index <= names.len(),
            wanted@ == lower_of(query@),
            places@ == found(names@, query@, index as nat),
        decreases names.len() - index,
    {
        let name = lower_text(names[index].as_str());
        if contains_text(name.as_str(), wanted.as_str()) {
            places.push(index);
        }
        index += 1;
    }
    places
}

/// What an empty list of recordings says.
pub fn empty_picker(no_assets: bool) -> (text: &'static str)
    ensures
        text@ == if no_assets {
            "Import audio to get started."@
        } else {
            "No matches"@
        },
{
    if no_assets {
        "Import audio to get started."
    } else {
        "No matches"
    }
}

/// Whatever is done to the zone in the window, its slice then lies in the recording and is
/// not empty, unless the slice itself was drawn or typed otherwise.
pub proof fn slices_stay_playable(zone: ZoneModel, event: SampleEvent, source: SampleSource)
    requires
        0 < source.shortest <= source.duration,
        event matches SampleEvent::Slice { slice, .. } ==> 0 <= slice.start && slice.start
            + source.shortest <= slice.end <= source.duration,
        event matches SampleEvent::Edit(edit) ==> !(edit is SourceStart)
            && !(edit is SourceDuration),
    ensures
        sliced(sampled(zone, event, source).0, source),
{
}

/// A draft survives until the project changes the zone itself.
pub proof fn drafts_survive_looking(editor: EditorModel, zones: Seq<ZoneModel>)
    requires
        wanted_zone(editor, zones) == editor.baseline,
        editor.zone_id is Some ==> editor.baseline is Some,
    ensures
        synced(editor, zones) == editor,
{
}

/// After a look at the project, the draft starts from what the project has, unless it did
/// already; and a second look changes nothing.
pub proof fn looking_twice_changes_nothing(editor: EditorModel, zones: Seq<ZoneModel>)
    ensures
        ({
            let once = synced(editor, zones);
            &&& synced(once, zones) == once
            &&& once.baseline == wanted_zone(once, zones)
        }),
{
    let zone = wanted_zone(editor, zones);
    if editor.zone_id is Some && zone is None {
        if zones.len() > 0 {
            assert(zone_place(zones, zones[0].id) == 0);
        }
    }
}

/// Only a key range that was chosen keeps a key from playing the zone: after asking for
/// all keys, none is kept, and nothing else of the zone changed.
pub proof fn all_keys_change_nothing_else(zone: ZoneModel, duration: int)
    ensures
        ({
            let after = zone_after(zone, ZoneEdit::AllKeys, duration);
            &&& after.low_note == 0 && after.high_note == 127
            &&& (ZoneModel { low_note: zone.low_note, high_note: zone.high_note, ..after }) == zone
        }),
{
}

/// A zone in good order: notes and velocities from low to high.
pub open spec fn in_order(zone: ZoneModel) -> bool {
    zone.low_note <= zone.high_note <= 127 && zone.low_velocity <= zone.high_velocity <= 127
        && zone.root_note <= 127
}

/// No change brings a zone out of order.
pub proof fn edits_keep_zones_in_order(zone: ZoneModel, edit: ZoneEdit, duration: int)
    requires
        in_order(zone),
    ensures
        in_order(zone_after(zone, edit, duration)),
{
}

/// Every field of a zone changes what it is named after, to what was put in as long as a zone can
/// have it, and nothing else.
pub proof fn zone_fields_change_what_they_name(
    zone: ZoneModel,
    duration: int,
    note: u8,
    time: i64,
    fade: u32,
    gain: i32,
    yes: bool,
    id: u128,
    name: String,
    group: u16,
)
    requires
        in_order(zone),
        0 < duration <= i64::MAX,
        note <= 127,
        0 <= time <= duration,
        fade <= 60_000_000,
        -120_000 <= gain <= 24_000,
    ensures
        zone_after(zone, ZoneEdit::Name(name), duration) == (ZoneModel { name: name@, ..zone }),
        zone_after(zone, ZoneEdit::Asset(id), duration) == (ZoneModel { asset_id: id, ..zone }),
        zone_after(zone, ZoneEdit::SourceStart(time), duration) == (ZoneModel {
            source_start: time,
            ..zone
        }),
        time >= 1_000_000 ==> zone_after(zone, ZoneEdit::SourceDuration(time), duration) == (
        ZoneModel { source_duration: time, ..zone }),
        time < 1_000_000 <= duration ==> zone_after(zone, ZoneEdit::SourceDuration(time), duration)
            == (ZoneModel { source_duration: 1_000_000, ..zone }),
        zone_after(zone, ZoneEdit::Root(note), duration) == (ZoneModel { root_note: note, ..zone }),
        note <= zone.high_note ==> zone_after(zone, ZoneEdit::LowNote(note), duration) == (
        ZoneModel { low_note: note, ..zone }),
        note > zone.high_note ==> zone_after(zone, ZoneEdit::LowNote(note), duration) == (
        ZoneModel { low_note: zone.high_note, ..zone }),
        note >= zone.low_note ==> zone_after(zone, ZoneEdit::HighNote(note), duration) == (
        ZoneModel { high_note: note, ..zone }),
        note < zone.low_note ==> zone_after(zone, ZoneEdit::HighNote(note), duration) == (
        ZoneModel { high_note: zone.low_note, ..zone }),
        note <= zone.high_velocity ==> zone_after(zone, ZoneEdit::LowVelocity(note), duration) == (
        ZoneModel { low_velocity: note, ..zone }),
        note >= zone.low_velocity ==> zone_after(zone, ZoneEdit::HighVelocity(note), duration) == (
        ZoneModel { high_velocity: note, ..zone }),
        zone_after(zone, ZoneEdit::AllKeys, duration) == (ZoneModel {
            low_note: 0,
            high_note: 127,
            ..zone
        }),
        zone_after(zone, ZoneEdit::OneShot(yes), duration) == (ZoneModel { one_shot: yes, ..zone }),
        zone_after(zone, ZoneEdit::Reverse(yes), duration) == (ZoneModel { reverse: yes, ..zone }),
        zone_after(zone, ZoneEdit::Gain(gain), duration) == (ZoneModel { gain, ..zone }),
        fade <= 1_000 ==> zone_after(zone, ZoneEdit::Sensitivity(fade), duration) == (ZoneModel {
            velocity_sensitivity: fade,
            ..zone
        }),
        zone_after(zone, ZoneEdit::Attack(fade), duration) == (ZoneModel { attack: fade, ..zone }),
        zone_after(zone, ZoneEdit::Release(fade), duration) == (ZoneModel { release: fade, ..zone }),
        zone_after(zone, ZoneEdit::Choke(true), duration).choke_group is Some,
        zone_after(zone, ZoneEdit::Choke(false), duration) == (ZoneModel {
            choke_group: None,
            ..zone
        }),
        zone.choke_group is Some ==> zone_after(zone, ZoneEdit::ChokeGroup(group), duration) == (
        ZoneModel { choke_group: Some(group), ..zone }),
        zone.choke_group is None ==> zone_after(zone, ZoneEdit::ChokeGroup(group), duration)
            == zone,
{
}

/// A zone is brought into its source: what lies in it stays, and nothing else of the zone
/// changes.
pub proof fn zones_are_brought_into_their_source(zone: ZoneModel, duration: int)
    requires
        0 <= duration <= i64::MAX,
    ensures
        ({
            let after = fitted_zone(zone, duration);
            &&& after == (ZoneModel {
                source_start: after.source_start,
                source_duration: after.source_duration,
                ..zone
            })
            &&& 0 <= after.source_start <= duration
            &&& after.source_duration >= 1_000_000
            &&& after.source_start + 1_000_000 <= duration ==> after.source_start
                + after.source_duration <= duration
            &&& 0 <= zone.source_start <= duration ==> after.source_start == zone.source_start
            &&& 0 <= zone.source_start && zone.source_duration >= 1_000_000 && zone.source_start
                + zone.source_duration <= duration ==> after == zone
        }),
{
}

/// The settings of the sampler change one at a time, to what was put in as long as a sampler can
/// have it.
pub proof fn settings_change_one_at_a_time(
    settings: SamplerSettings,
    voices: u32,
    rule: VoiceStealing,
    gain: i32,
)
    ensures
        1 <= voices <= 1_024 ==> settings_after(settings, SettingsEdit::Polyphony(voices)) == (
        SamplerSettings { polyphony: voices, ..settings }),
        voices == 0 ==> settings_after(settings, SettingsEdit::Polyphony(voices)).polyphony == 1,
        voices > 1_024 ==> settings_after(settings, SettingsEdit::Polyphony(voices)).polyphony
            == 1_024,
        settings_after(settings, SettingsEdit::VoiceStealing(rule)) == (SamplerSettings {
            voice_stealing: rule,
            ..settings
        }),
        -120_000 <= gain <= 24_000 ==> settings_after(settings, SettingsEdit::OutputGain(gain)) == (
        SamplerSettings { output_gain: gain, ..settings }),
{
}

/// The settings that are edited are those of the track; what a track has not set is one voice
/// above the list of zones and 32 in the window, the oldest voice gives way, and no gain.
pub proof fn edited_settings_are_those_of_the_track(track: TrackSettings, place: SettingsPlace)
    ensures
        ({
            let settings = edited_settings(track, place);
            &&& track.polyphony matches Some(voices) ==> settings.polyphony == voices
            &&& track.voice_stealing matches Some(rule) ==> settings.voice_stealing == rule
            &&& track.output_gain matches Some(gain) ==> settings.output_gain == gain
            &&& track.polyphony is None && place is ZoneList ==> settings.polyphony == 1
            &&& track.polyphony is None && place is Window ==> settings.polyphony == 32
            &&& track.voice_stealing is None ==> settings.voice_stealing is Oldest
            &&& track.output_gain is None ==> settings.output_gain == 0
        }),
{
}

/// The slice of a zone is what was drawn, or has the end that was put in while the other stays;
/// the whole recording is all of it. Nothing else of the zone changes.
pub proof fn slices_are_what_was_put_in(
    zone: ZoneModel,
    source: SampleSource,
    drawn: Slice,
    time: i64,
    finished: bool,
)
    requires
        0 < source.shortest <= source.duration,
        sliced(zone, source),
        zone.source_start + zone.source_duration <= source.duration,
        0 <= drawn.start <= drawn.end <= source.duration,
    ensures
        ({
            let end = zone.source_start + zone.source_duration;
            let (by_hand, a) = sampled(zone, SampleEvent::Slice { slice: drawn, finished }, source);
            let (from, b) = sampled(zone, SampleEvent::Start { time, finished }, source);
            let (until, c) = sampled(zone, SampleEvent::End { time, finished }, source);
            let (whole, d) = sampled(zone, SampleEvent::Full, source);
            &&& by_hand.source_start == drawn.start && by_hand.source_start
                + by_hand.source_duration == drawn.end
            &&& from.source_start + from.source_duration == end
            &&& 0 <= time <= end - source.shortest ==> from.source_start == time
            &&& time < 0 ==> from.source_start == 0
            &&& time > end - source.shortest ==> from.source_duration == source.shortest
            &&& until.source_start == zone.source_start
            &&& zone.source_start + source.shortest <= time <= source.duration
                ==> until.source_start + until.source_duration == time
            &&& time > source.duration ==> until.source_start + until.source_duration
                == source.duration
            &&& whole.source_start == 0 && whole.source_duration == source.duration
            &&& a == finished && b == finished && c == finished && d
            &&& from == (ZoneModel {
                source_start: from.source_start,
                source_duration: from.source_duration,
                ..zone
            })
            &&& sampled(zone, SampleEvent::Seek(time), source) == (zone, false)
        }),
{
}

/// Within the slice a recording is listened to until the slice ends, elsewhere until the
/// recording does, from where it was asked for unless too little would be left.
pub proof fn listening_goes_on_to_the_end(
    position: int,
    slice: Slice,
    duration: int,
    shortest: int,
)
    requires
        0 <= position <= duration,
        0 < shortest <= duration,
        0 <= slice.start,
        slice.start + shortest <= slice.end <= duration,
    ensures
        ({
            let (from, until) = listening(position, slice, duration, shortest);
            &&& slice.start <= position < slice.end ==> until == slice.end
            &&& !(slice.start <= position < slice.end) ==> until == duration
            &&& position + shortest <= until ==> from == position
            &&& position + shortest > until ==> from + shortest == until
        }),
{
}

/// A zone is found by its id: the first that has it, if any has.
pub proof fn zones_are_found_by_their_id(zones: Seq<ZoneModel>, id: u128)
    ensures
        match zone_of(zones, id) {
            Some(zone) => zone.id == id && zones.contains(zone),
            None => forall|i: int| 0 <= i < zones.len() ==> (#[trigger] zones[i]).id != id,
        },
        0 <= zone_place(zones, id) <= zones.len(),
        forall|i: int| 0 <= i < zone_place(zones, id) ==> (#[trigger] zones[i]).id != id,
        zone_place(zones, id) < zones.len() ==> zones[zone_place(zones, id)].id == id,
    decreases zones.len(),
{
    if zones.len() > 0 && zones[0].id != id {
        let rest = zones.skip(1);
        zones_are_found_by_their_id(rest, id);
        let place = zone_place(rest, id);
        assert forall|i: int| 0 <= i < zones.len() implies i == 0 || #[trigger] zones[i] == rest[i
            - 1] by {
        }
        if place < rest.len() {
            assert(zones[1 + place] == rest[place]);
        }
    } else if zones.len() > 0 {
        assert(zones[0].id == id);
    }
}

/// The editor shows the zone that was chosen, as the project has it, and draws its waveform anew;
/// nothing else of the editor changes.
pub proof fn chosen_zones_are_shown(editor: EditorModel, zone: ZoneModel)
    ensures
        ({
            let after = choosing(editor, Some(zone));
            &&& after.zone_id == Some(zone.id)
            &&& after.draft == Some(zone) && after.baseline == Some(zone)
            &&& after.waveform_revision != editor.waveform_revision
            &&& after.error is None
            &&& after.track_id == editor.track_id && after.query == editor.query
                && after.preview_path == editor.preview_path && after.preview_pending
                == editor.preview_pending
            &&& choosing(editor, None).zone_id is None && choosing(editor, None).draft is None
        }),
{
}

/// An editor whose zone is gone goes on with the first one, and one whose zone was changed starts
/// over from what it has become.
pub proof fn editors_follow_the_project(editor: EditorModel, zones: Seq<ZoneModel>, id: u128)
    requires
        editor.zone_id == Some(id),
    ensures
        ({
            let after = synced(editor, zones);
            let gone = forall|i: int| 0 <= i < zones.len() ==> (#[trigger] zones[i]).id != id;
            &&& gone && zones.len() > 0 ==> after.zone_id == Some(zones[0].id) && after.draft
                == Some(zones[0])
            &&& gone && zones.len() == 0 ==> after.zone_id is None && after.draft is None
            &&& !gone ==> after.zone_id == Some(id)
            &&& !gone && editor.baseline != zone_of(zones, id) ==> after.draft == zone_of(
                zones,
                id,
            )
            &&& !gone && editor.baseline == zone_of(zones, id) ==> after == editor
        }),
{
    zones_are_found_by_their_id(zones, id);
    let place = zone_place(zones, id);
    if zone_of(zones, id) is Some {
        assert(zones[place].id == id);
    }
}

/// The length of a source is that of its frames, rounded down to the nanosecond, and what it is
/// said to be where its frames are not known.
pub proof fn sources_last_as_long_as_their_frames(
    frames: u64,
    sample_rate: u32,
    duration: i64,
)
    ensures
        ({
            let length = source_length(frames, sample_rate, duration);
            &&& frames > 0 && sample_rate > 0 ==> sample_rate * length <= frames * 1_000_000_000
                < sample_rate * (length + 1)
            &&& frames == 0 || sample_rate == 0 ==> (duration >= 0 ==> length == duration) && (
            duration < 0 ==> length == 0)
        }),
{
    if frames > 0 && sample_rate > 0 {
        let total = frames as int * 1_000_000_000;
        let rate = sample_rate as int;
        vstd::arithmetic::div_mod::lemma_fundamental_div_mod(total, rate);
        assert(0 <= total % rate < rate) by (nonlinear_arith)
            requires
                0 < rate,
        ;
        let length = total / rate;
        assert(rate * (length + 1) == rate * length + rate) by (nonlinear_arith);
    }
}

/// The shortest slice is a frame, rounded down to the nanosecond, and no less than one.
pub proof fn shortest_slices_are_a_frame(sample_rate: int)
    requires
        0 < sample_rate <= 1_000_000_000,
    ensures
        sample_rate * frame_length(sample_rate) <= 1_000_000_000 < sample_rate * (frame_length(
            sample_rate,
        ) + 1),
        frame_length(0) == 1_000_000_000,
{
    let total: int = 1_000_000_000;
    assert(total / 1 == total);
    vstd::arithmetic::div_mod::lemma_fundamental_div_mod(total, sample_rate);
    assert(0 <= total % sample_rate < sample_rate) by (nonlinear_arith)
        requires
            0 < sample_rate,
    ;
    let length = total / sample_rate;
    assert(length >= 1) by (nonlinear_arith)
        requires
            total == sample_rate * length + total % sample_rate,
            0 <= total % sample_rate < sample_rate,
            total >= sample_rate,
            sample_rate > 0,
    ;
    assert(sample_rate * (length + 1) == sample_rate * length + sample_rate) by (nonlinear_arith);
}

/// The picker shows every file whose name has in it what was typed, in capitals or not, in the
/// order of the files, and no other.
pub proof fn pickers_show_what_was_typed(names: Seq<String>, query: Seq<char>, count: nat)
    requires
        count <= names.len(),
        count <= usize::MAX,
    ensures
        forall|i: int|
            0 <= i < found(names, query, count).len() ==> (#[trigger] found(
                names,
                query,
                count,
            )[i]) < count && occurs_in(
                lower_of(names[found(names, query, count)[i] as int]@),
                lower_of(query),
            ),
        forall|place: int|
            0 <= place < count && occurs_in(lower_of((#[trigger] names[place])@), lower_of(query))
                ==> found(names, query, count).contains(place as usize),
        forall|i: int, j: int|
            0 <= i < j < found(names, query, count).len() ==> (#[trigger] found(
                names,
                query,
                count,
            )[i]) < (#[trigger] found(names, query, count)[j]),
    decreases count,
{
    if count > 0 {
        let less = (count - 1) as nat;
        pickers_show_what_was_typed(names, query, less);
        let before = found(names, query, less);
        let after = found(names, query, count);
        assert forall|place: int|
            0 <= place < count && occurs_in(
                lower_of((#[trigger] names[place])@),
                lower_of(query),
            ) implies after.contains(place as usize) by {
            if place < less {
                assert(before.contains(place as usize));
                let i = choose|i: int| 0 <= i < before.len() && before[i] == place as usize;
                assert(after[i] == before[i]);
            } else {
                assert(after.last() == place as usize);
            }
        }
    }
}

/// A range that cannot be listened to yet waits, the last one asked for; one that fails says why.
pub proof fn previews_wait_for_their_file(
    editor: EditorModel,
    status: Option<PreviewState>,
    range: (i64, i64),
)
    ensures
        ({
            let after = after_play(editor, status, range);
            &&& status is None ==> after.preview_pending == Some(range)
            &&& status matches Some(state) ==> {
                &&& state.error matches Some(error) ==> after.preview_pending is None
                    && after.error == Some(error@)
                &&& state.error is None && state.loading ==> after.preview_pending == Some(range)
                &&& state.error is None && !state.loading ==> after.preview_pending is None
                &&& state.error is None ==> after.error == editor.error
            }
            &&& can_play(status) <==> after.preview_pending is None && (status matches Some(state)
                && state.error is None)
            &&& after.draft == editor.draft && after.zone_id == editor.zone_id
        }),
{
}

/// The selected row is the one that was selected, or the last where there are fewer.
pub proof fn selections_stay_in_the_list(selected: usize, count: nat)
    requires
        0 < count <= usize::MAX,
    ensures
        selected < count ==> selected_place(selected, count) == selected,
        selected >= count ==> selected_place(selected, count) == count - 1,
{
}

/// The play button stops while its own file plays or is about to; the position is that of the
/// file while it is the one that is listened to, and the start of the slice otherwise.
pub proof fn play_buttons_belong_to_their_file(
    editor: EditorModel,
    media_path: Option<String>,
    state: PreviewState,
    connected: bool,
    start: i64,
)
    ensures
        ({
            let here = media_path is Some && editor.preview_path == text_view(media_path);
            let shown = playback_of(editor, media_path, Some(state), connected, start);
            let idle = playback_of(editor, media_path, None, connected, start);
            &&& shown.available <==> media_path is Some && connected
            &&& shown.active <==> (here && state.playing) || editor.preview_pending is Some
            &&& shown.loading <==> here && state.loading
            &&& here ==> shown.position == state.position && shown.heard
            &&& !here ==> shown.position == start && !shown.heard
            &&& idle.position == start && !idle.heard && !idle.loading
            &&& idle.active <==> editor.preview_pending is Some
        }),
{
}

/// The window of a zone keeps what was changed as its draft.
pub proof fn windows_keep_the_draft(
    editor: EditorModel,
    zone: ZoneModel,
    zones: Seq<ZoneModel>,
    event: SampleEvent,
    source: SampleSource,
)
    requires
        editor.zone_id == Some(zone.id),
        !(event is RemoveLayer),
    ensures
        ({
            let after = window_after(editor, zone, zones, event, source);
            &&& after.draft == Some(sampled(zone, event, source).0)
            &&& after.zone_id == editor.zone_id && after.baseline == editor.baseline
            &&& event == (SampleEvent::Toggle { active: true }) ==> after.preview_pending is None
            &&& event != (SampleEvent::Toggle { active: true }) ==> after.preview_pending
                == editor.preview_pending
        }),
{
}

/// What is done in the window of a zone: the play button stops or plays the slice, a change that
/// counts is made to the zone where it stands in the list, and a removal removes it there.
pub proof fn window_actions_reach_their_zone(
    editor: EditorModel,
    zone: ZoneModel,
    zones: Seq<ZoneModel>,
    track: TrackSettings,
    event: SampleEvent,
    source: SampleSource,
    action: SampleAction,
)
    requires
        sample_action(editor, zone, zones, track, event, source, action),
        zones.len() <= usize::MAX,
    ensures
        event == (SampleEvent::Toggle { active: true }) ==> action is StopPreview,
        event == (SampleEvent::Toggle { active: false }) && zone.source_start + zone.source_duration
            <= source.duration && 0 <= zone.source_start && 0 <= zone.source_duration ==> action
            == (SampleAction::Preview {
            start: zone.source_start,
            end: (zone.source_start + zone.source_duration) as i64,
        }),
        action matches SampleAction::UpdateZone { index, zone: changed } ==> index < zones.len()
            && zones[index as int].id == zone.id && changed@ == sampled(zone, event, source).0
            && editor.zone_id == Some(zone.id),
        action matches SampleAction::RemoveZone(index) ==> event is RemoveLayer && index
            < zones.len() && zones[index as int].id == zone.id,
        (event matches SampleEvent::Slice { finished, .. } && !finished) ==> action is Nothing,
        (event matches SampleEvent::Start { finished, .. } && !finished) ==> action is Nothing,
        (event matches SampleEvent::End { finished, .. } && !finished) ==> action is Nothing,
        event matches SampleEvent::Settings(edit) ==> action is UpdateSettings,
        event is Seek ==> action is Preview,
{
    zones_are_found_by_their_id(zones, zone.id);
    let place = zone_place(zones, zone.id);
}

/// A file is opened for listening where another is open, none is, or it failed; one that is there
/// is listened to as it is.
pub proof fn files_are_opened_when_they_are_not(
    editor: EditorModel,
    path: Seq<char>,
    state: PreviewState,
)
    ensures
        must_begin(editor, path, None),
        editor.preview_path != Some(path) ==> must_begin(editor, path, Some(state)),
        state.error is Some ==> must_begin(editor, path, Some(state)),
        editor.preview_path == Some(path) && state.error is None ==> !must_begin(
            editor,
            path,
            Some(state),
        ),
{
}

/// A field that is put out of what a zone can have rests at its end.
pub proof fn zone_fields_rest_at_their_ends(
    zone: ZoneModel,
    duration: int,
    note: u8,
    time: i64,
    fade: u32,
    gain: i32,
)
    requires
        in_order(zone),
        1_000_000 <= duration <= i64::MAX,
    ensures
        time < 0 ==> zone_after(zone, ZoneEdit::SourceStart(time), duration).source_start == 0,
        time > duration ==> zone_after(zone, ZoneEdit::SourceStart(time), duration).source_start
            == duration,
        time > duration ==> zone_after(
            zone,
            ZoneEdit::SourceDuration(time),
            duration,
        ).source_duration == duration,
        note > 127 ==> zone_after(zone, ZoneEdit::Root(note), duration).root_note == 127,
        note > 127 ==> zone_after(zone, ZoneEdit::HighNote(note), duration).high_note == 127,
        note > 127 ==> zone_after(zone, ZoneEdit::HighVelocity(note), duration).high_velocity
            == 127,
        note > zone.high_velocity ==> zone_after(
            zone,
            ZoneEdit::LowVelocity(note),
            duration,
        ).low_velocity == zone.high_velocity,
        note < zone.low_velocity ==> zone_after(
            zone,
            ZoneEdit::HighVelocity(note),
            duration,
        ).high_velocity == zone.low_velocity,
        gain > 24_000 ==> zone_after(zone, ZoneEdit::Gain(gain), duration).gain == 24_000,
        gain < -120_000 ==> zone_after(zone, ZoneEdit::Gain(gain), duration).gain == -120_000,
        fade > 60_000_000 ==> zone_after(zone, ZoneEdit::Attack(fade), duration).attack
            == 60_000_000,
        fade > 60_000_000 ==> zone_after(zone, ZoneEdit::Release(fade), duration).release
            == 60_000_000,
        fade > 1_000 ==> zone_after(
            zone,
            ZoneEdit::Sensitivity(fade),
            duration,
        ).velocity_sensitivity == 1_000,
        zone_after(zone, ZoneEdit::Choke(true), duration).choke_group == Some(1u16),
{
}

} // verus!
