//! What the inspector shows of assets, samplers and stacks of processors, and what it
//! changes about them.
//!
//! Times are counted in nanoseconds, tempos in thousandths of a beat per minute, beats in
//! thousandths.
use crate::intents::{Intent, Selection};
use crate::numbers::{fixed, push_fixed, Precision};
use crate::pages::least;
use crate::signal::{
    lens, node, property, show, show_lens, show_node, show_property, shown, EffectInfo, RowModel,
    SignalRow, Tone,
};
use crate::text::{
    decimal, decimal_text, joined, letters_of, push_decimal, same_text, stands_at, text_between,
};
use crate::transport::clamped;
use vstd::prelude::*;

verus! {

/// Which inspector a selection has.
#[derive(Clone, Copy, Debug, PartialEq, Eq, Structural)]
pub enum InspectorKind {
    Empty,
    Asset(usize),
    MidiAsset(usize),
    Sampler(usize),
    Clip { track: usize, clip: usize },
}

/// Which inspector a selection has.
pub open spec fn inspector_of(selection: Selection) -> InspectorKind {
    match selection {
        Selection::Nothing => InspectorKind::Empty,
        Selection::Track { .. } => InspectorKind::Empty,
        Selection::Asset(index) => InspectorKind::Asset(index),
        Selection::MidiAsset(index) => InspectorKind::MidiAsset(index),
        Selection::Sampler { track } => InspectorKind::Sampler(track),
        Selection::Clip { track, clip } => InspectorKind::Clip { track, clip },
        Selection::Effect { track, clip, .. } => InspectorKind::Clip { track, clip },
    }
}

/// Which inspector a selection has.
pub fn inspector(selection: Selection) -> (kind: InspectorKind)
    ensures
        kind == inspector_of(selection),
{
    match selection {
        Selection::Nothing | Selection::Track { .. } => InspectorKind::Empty,
        Selection::Asset(index) => InspectorKind::Asset(index),
        Selection::MidiAsset(index) => InspectorKind::MidiAsset(index),
        Selection::Sampler { track } => InspectorKind::Sampler(track),
        Selection::Clip { track, clip } | Selection::Effect { track, clip, .. } =>
            InspectorKind::Clip { track, clip },
    }
}

/// An audio asset, as its inspector shows it.
#[derive(Debug)]
pub struct AssetDetails {
    pub id: String,
    pub name: String,
    pub path: String,
    pub definition: String,
    pub media_path: Option<String>,
    pub content_hash: Option<String>,
    pub channels: u16,
    pub tempo: Option<u32>,
    pub first_beat: Option<u64>,
    pub duration: u64,
    pub sample_rate: u32,
    pub frames: u64,
    pub revisions: u64,
    pub current_revision: Option<String>,
}

/// A row where there is something to show.
pub open spec fn optional(label: Seq<char>, value: Option<String>) -> Seq<RowModel> {
    match value {
        Some(value) => seq![property(label, value@)],
        None => Seq::empty(),
    }
}

/// The rows of an asset above its tempo.
pub open spec fn asset_rows(asset: AssetDetails, structure_lens: bool) -> Seq<RowModel> {
    seq![
        node(1, "SOURCE ASSET"@, asset.name@, Tone::Audio, true),
        property("Stable ID"@, asset.id@),
    ] + lens(structure_lens, property("Path"@, asset.path@)) + seq![
        property("Definition"@, asset.definition@),
        property(
            "Media"@,
            match asset.media_path {
                Some(path) => path@,
                None => "not materialized"@,
            },
        ),
    ] + optional("Content hash"@, asset.content_hash) + seq![
        property(
            "Layout"@,
            if asset.channels == 1 {
                "mono"@
            } else {
                "stereo"@
            },
        ),
    ] + match asset.tempo {
        Some(tempo) => seq![property("Asset tempo"@, fixed(tempo as nat, 1_000, 1, Precision::Single) + " BPM"@)],
        None => Seq::empty(),
    }
}

/// The rows of an asset below its tempo.
pub open spec fn asset_media_rows(asset: AssetDetails) -> Seq<RowModel> {
    seq![
        property("Sample rate"@, decimal(asset.sample_rate as nat) + " Hz"@),
        property("Frames"@, decimal(asset.frames as nat)),
        property("Revisions"@, decimal(asset.revisions as nat)),
    ] + optional("Current revision"@, asset.current_revision)
}

fn copied(text: &String) -> (copy: String)
    ensures
        copy@ == text@,
{
    String::from_str(text.as_str())
}

fn show_optional(rows: &mut Vec<SignalRow>, label: &str, value: &Option<String>)
    ensures
        shown(final(rows)@) == shown(old(rows)@) + optional(label@, *value),
{
    if let Some(value) = value {
        show_property(rows, label, copied(value));
    }
    assert(shown(rows@) =~= shown(old(rows)@) + optional(label@, *value));
}

/// What a button of the asset's tempo does.
#[derive(Clone, Copy, Debug)]
pub enum TempoEvent {
    Tempo(u32),
    FirstBeat(u64),
    Half,
    Double,
    /// A beat was tapped at this time.
    Tap(u64),
    /// Take the usual tempo without looking at the audio.
    Usual,
    /// The tempo at which the known region has its known beats.
    Fit,
    RegionStart(u64),
    RegionEnd(u64),
    RegionBeats(u32),
}

/// A tempo for an asset.
#[derive(Clone, Copy, Debug, PartialEq, Eq, Structural)]
pub struct TempoEdit {
    pub tempo: u64,
    pub first_beat: u64,
    /// The tempo is taken over as a suggestion.
    pub suggested: bool,
}

/// What is remembered between two looks at the tempo of an asset.
#[derive(Clone, Copy, Debug, PartialEq, Eq, Structural)]
pub struct TempoTools {
    pub last_tap: Option<u64>,
    pub region_start: u64,
    pub region_end: u64,
    pub region_beats: u32,
}

/// The tempo of an asset that has none.
pub const USUAL_TEMPO: u32 = 120_000;

/// The tempo that an asset has, or would have.
pub open spec fn known_tempo(tempo: Option<u32>) -> u32 {
    match tempo {
        Some(tempo) => tempo,
        None => USUAL_TEMPO,
    }
}

/// Where the first beat is, or would be.
pub open spec fn known_beat(first_beat: Option<u64>) -> u64 {
    match first_beat {
        Some(beat) => beat,
        None => 0,
    }
}

/// The tempo of beats that are this far apart, to the nearest thousandth.
pub open spec fn tempo_between(nanos: int) -> int {
    (120_000_000_000_000 + nanos) / (2 * nanos)
}

/// The tempo at which some beats fill a time, to the nearest thousandth.
pub open spec fn fitted_tempo(beats: int, nanos: int) -> int {
    (beats * 120_000_000_000 + nanos) / (2 * nanos)
}

/// Two taps are a tempo if they are neither too close nor too far apart.
pub open spec fn taps_count(last: Option<u64>, now: u64) -> bool {
    last matches Some(last) && 150_000_000 <= now - last <= 3_000_000_000
}

/// The tempo that an event asks for.
pub open spec fn tempo_edit(
    tools: TempoTools,
    asset: AssetDetails,
    event: TempoEvent,
) -> Option<TempoEdit> {
    let tempo = known_tempo(asset.tempo);
    let first_beat = known_beat(asset.first_beat);
    match event {
        TempoEvent::Tempo(wanted) => Some(
            TempoEdit {
                tempo: clamped(wanted as int, 20_000, 400_000) as u64,
                first_beat,
                suggested: false,
            },
        ),
        TempoEvent::FirstBeat(wanted) => Some(
            TempoEdit {
                tempo: tempo as u64,
                first_beat: if wanted <= asset.duration {
                    wanted
                } else {
                    asset.duration
                },
                suggested: false,
            },
        ),
        TempoEvent::Half => Some(
            TempoEdit { tempo: (tempo / 2) as u64, first_beat, suggested: false },
        ),
        TempoEvent::Double => Some(
            TempoEdit { tempo: (tempo * 2) as u64, first_beat, suggested: false },
        ),
        TempoEvent::Tap(now) => if taps_count(tools.last_tap, now) {
            Some(
                TempoEdit {
                    tempo: tempo_between(now - tools.last_tap->0) as u64,
                    first_beat,
                    suggested: false,
                },
            )
        } else {
            None
        },
        TempoEvent::Usual => Some(
            TempoEdit { tempo: USUAL_TEMPO as u64, first_beat, suggested: true },
        ),
        TempoEvent::Fit => if tools.region_end > tools.region_start {
            Some(
                TempoEdit {
                    tempo: least(
                        fitted_tempo(
                            tools.region_beats as int,
                            tools.region_end - tools.region_start,
                        ),
                        u64::MAX as int,
                    ) as u64,
                    first_beat,
                    suggested: false,
                },
            )
        } else {
            None
        },
        _ => None,
    }
}

/// What is remembered after an event.
pub open spec fn tools_after(
    tools: TempoTools,
    asset: AssetDetails,
    event: TempoEvent,
) -> TempoTools {
    match event {
        TempoEvent::Tap(now) => TempoTools { last_tap: Some(now), ..tools },
        TempoEvent::RegionStart(time) => TempoTools {
            region_start: if time <= asset.duration {
                time
            } else {
                asset.duration
            },
            ..tools
        },
        TempoEvent::RegionEnd(time) => TempoTools {
            region_end: if time <= asset.duration {
                time
            } else {
                asset.duration
            },
            ..tools
        },
        TempoEvent::RegionBeats(beats) => TempoTools {
            region_beats: clamped(beats as int, 1_000, 128_000) as u32,
            ..tools
        },
        _ => tools,
    }
}

impl TempoTools {
    /// Eight beats in the first four seconds.
    pub fn new() -> (tools: Self)
        ensures
            tools == (TempoTools {
                last_tap: None,
                region_start: 0,
                region_end: 4_000_000_000,
                region_beats: 8_000,
            }),
    {
        TempoTools {
            last_tap: None,
            region_start: 0,
            region_end: 4_000_000_000,
            region_beats: 8_000,
        }
    }

    /// Performs an event, and gives the tempo that it asks for.
    pub fn edit(&mut self, asset: &AssetDetails, event: TempoEvent) -> (edit: Option<TempoEdit>)
        ensures
            *final(self) == tools_after(*old(self), *asset, event),
            edit == tempo_edit(*old(self), *asset, event),
    {
        let tempo: u32 = match asset.tempo {
            Some(tempo) => tempo,
            None => USUAL_TEMPO,
        };
        let first_beat: u64 = match asset.first_beat {
            Some(beat) => beat,
            None => 0,
        };
        match event {
            TempoEvent::Tempo(wanted) => {
                let kept: u32 = crate::transport::clamp(wanted, 20_000, 400_000);
                Some(TempoEdit { tempo: kept as u64, first_beat, suggested: false })
            },
            TempoEvent::FirstBeat(wanted) => Some(
                TempoEdit {
                    tempo: tempo as u64,
                    first_beat: if wanted <= asset.duration {
                        wanted
                    } else {
                        asset.duration
                    },
                    suggested: false,
                },
            ),
            TempoEvent::Half => Some(
                TempoEdit { tempo: (tempo / 2) as u64, first_beat, suggested: false },
            ),
            TempoEvent::Double => Some(
                TempoEdit { tempo: tempo as u64 * 2, first_beat, suggested: false },
            ),
            TempoEvent::Tap(now) => {
                let edit = match self.last_tap {
                    Some(last) => if now >= last && now - last >= 150_000_000 && now - last
                        <= 3_000_000_000 {
                        let apart: u64 = now - last;
                        Some(
                            TempoEdit {
                                tempo: (120_000_000_000_000 + apart) / (2 * apart),
                                first_beat,
                                suggested: false,
                            },
                        )
                    } else {
                        None
                    },
                    None => None,
                };
                self.last_tap = Some(now);
                edit
            },
            TempoEvent::Usual => Some(
                TempoEdit { tempo: USUAL_TEMPO as u64, first_beat, suggested: true },
            ),
            TempoEvent::Fit => {
                if self.region_end > self.region_start {
                    let apart: u128 = (self.region_end - self.region_start) as u128;
                    let doubled: u128 = self.region_beats as u128 * 120_000_000_000 + apart;
                    let fitted: u128 = doubled / (2 * apart);
                    let tempo: u64 = if fitted <= u64::MAX as u128 {
                        fitted as u64
                    } else {
                        u64::MAX
                    };
                    Some(TempoEdit { tempo, first_beat, suggested: false })
                } else {
                    None
                }
            },
            TempoEvent::RegionStart(time) => {
                self.region_start = if time <= asset.duration {
                    time
                } else {
                    asset.duration
                };
                None
            },
            TempoEvent::RegionEnd(time) => {
                self.region_end = if time <= asset.duration {
                    time
                } else {
                    asset.duration
                };
                None
            },
            TempoEvent::RegionBeats(beats) => {
                self.region_beats = crate::transport::clamp(beats, 1_000, 128_000);
                None
            },
        }
    }
}

impl AssetDetails {
    /// The rows above the tempo.
    pub fn asset_inspector(&self, structure_lens: bool) -> (rows: Vec<SignalRow>)
        ensures
            shown(rows@) == asset_rows(*self, structure_lens),
    {
        let mut rows: Vec<SignalRow> = Vec::new();
        assert(shown(rows@) =~= Seq::empty());
        show_node(&mut rows, 1, "SOURCE ASSET", self.name.as_str(), Tone::Audio, true);
        show_property(&mut rows, "Stable ID", copied(&self.id));
        show_lens(&mut rows, structure_lens, "Path", self.path.as_str());
        show_property(&mut rows, "Definition", copied(&self.definition));
        let media = match &self.media_path {
            Some(path) => copied(path),
            None => String::from_str("not materialized"),
        };
        show_property(&mut rows, "Media", media);
        show_optional(&mut rows, "Content hash", &self.content_hash);
        let layout: &'static str = if self.channels == 1 {
            "mono"
        } else {
            "stereo"
        };
        show_property(&mut rows, "Layout", String::from_str(layout));
        if let Some(tempo) = self.tempo {
            let mut text = String::new();
            push_fixed(&mut text, tempo as u64, 1_000, 1, Precision::Single);
            text.append(" BPM");
            assert(text@ =~= fixed(tempo as nat, 1_000, 1, Precision::Single) + " BPM"@);
            show_property(&mut rows, "Asset tempo", text);
        }
        assert(shown(rows@) =~= asset_rows(*self, structure_lens));
        rows
    }

    /// The rows below the tempo.
    pub fn media_rows(&self) -> (rows: Vec<SignalRow>)
        ensures
            shown(rows@) == asset_media_rows(*self),
    {
        let mut rows: Vec<SignalRow> = Vec::new();
        assert(shown(rows@) =~= Seq::empty());
        let mut rate = decimal_text(self.sample_rate as u64);
        rate.append(" Hz");
        show_property(&mut rows, "Sample rate", rate);
        show_property(&mut rows, "Frames", decimal_text(self.frames));
        show_property(&mut rows, "Revisions", decimal_text(self.revisions));
        show_optional(&mut rows, "Current revision", &self.current_revision);
        assert(shown(rows@) =~= asset_media_rows(*self));
        rows
    }

    /// The button that takes the asset apart, and whether it can be used.
    pub fn stem_button(&self, connected: bool, splitting: bool) -> (button: (&'static str, bool))
        ensures
            button.0@ == if splitting {
                "SPLITTING STEMS…"@
            } else {
                "STEM SPLITTER…"@
            },
            button.1 == (connected && self.media_path is Some && !splitting),
    {
        (
            if splitting {
                "SPLITTING STEMS…"
            } else {
                "STEM SPLITTER…"
            },
            connected && self.media_path.is_some() && !splitting,
        )
    }

    /// Whether the asset was made by processing another.
    pub fn is_processed(&self) -> (yes: bool)
        ensures
            yes == (self.definition@ == "processed"@),
    {
        same_text(self.definition.as_str(), "processed")
    }
}

/// The rows of a MIDI asset. Its length is counted in thousandths of a beat.
pub open spec fn midi_rows(
    name: Seq<char>,
    id: Seq<char>,
    path: Seq<char>,
    notes: u64,
    duration: u64,
    structure_lens: bool,
) -> Seq<RowModel> {
    seq![node(1, "MIDI ASSET"@, name, Tone::Highlight, true), property("Stable ID"@, id)] + lens(
        structure_lens,
        property("Path"@, path),
    ) + seq![
        property("Notes"@, decimal(notes as nat)),
        property("Duration"@, fixed(duration as nat, 1_000, 2, Precision::Single) + " beats"@),
        property("Storage"@, "canonical event data"@),
    ]
}

/// The rows of a MIDI asset.
pub fn midi_asset_inspector(
    name: &str,
    id: &str,
    path: &str,
    notes: u64,
    duration: u64,
    structure_lens: bool,
) -> (rows: Vec<SignalRow>)
    ensures
        shown(rows@) == midi_rows(name@, id@, path@, notes, duration, structure_lens),
{
    let mut rows: Vec<SignalRow> = Vec::new();
    assert(shown(rows@) =~= Seq::empty());
    show_node(&mut rows, 1, "MIDI ASSET", name, Tone::Highlight, true);
    show_property(&mut rows, "Stable ID", String::from_str(id));
    show_lens(&mut rows, structure_lens, "Path", path);
    show_property(&mut rows, "Notes", decimal_text(notes));
    let mut length = String::new();
    push_fixed(&mut length, duration, 1_000, 2, Precision::Single);
    length.append(" beats");
    assert(length@ =~= fixed(duration as nat, 1_000, 2, Precision::Single) + " beats"@);
    show_property(&mut rows, "Duration", length);
    show_property(&mut rows, "Storage", String::from_str("canonical event data"));
    assert(shown(rows@) =~= midi_rows(name@, id@, path@, notes, duration, structure_lens));
    rows
}

/// A zone of a sampler, as the inspector shows it.
#[derive(Debug)]
pub struct ZoneInfo {
    pub id: String,
    pub name: String,
    pub path: String,
    pub asset_id: String,
    pub root_note: u8,
    pub low_note: u8,
    pub high_note: u8,
    pub low_velocity: u8,
    pub high_velocity: u8,
}

/// A track with a sampler, as the inspector shows it.
#[derive(Debug)]
pub struct SamplerTrack {
    pub id: String,
    pub name: String,
    pub path: String,
    pub zones: Vec<ZoneInfo>,
}

/// A zone in a line.
pub open spec fn zone_text(zone: ZoneInfo) -> Seq<char> {
    zone.asset_id@ + " · root "@ + decimal(zone.root_note as nat) + " · notes "@ + decimal(
        zone.low_note as nat,
    ) + "–"@ + decimal(zone.high_note as nat) + " · velocity "@ + decimal(
        zone.low_velocity as nat,
    ) + "–"@ + decimal(zone.high_velocity as nat)
}

/// The rows of a zone.
pub open spec fn zone_rows(zone: ZoneInfo, structure_lens: bool) -> Seq<RowModel> {
    seq![property(zone.name@, zone_text(zone))] + lens(
        structure_lens,
        property("Zone ID"@, zone.id@),
    ) + lens(structure_lens, property("Path"@, zone.path@))
}

/// The rows of zones.
pub open spec fn zones_rows(zones: Seq<ZoneInfo>, structure_lens: bool) -> Seq<RowModel>
    decreases zones.len(),
{
    if zones.len() == 0 {
        Seq::empty()
    } else {
        zones_rows(zones.drop_last(), structure_lens) + zone_rows(zones.last(), structure_lens)
    }
}

/// The rows of a sampler; the track may be gone.
pub open spec fn sampler_rows(track: Option<SamplerTrack>, structure_lens: bool) -> Seq<RowModel> {
    let (name, zones) = match track {
        Some(track) => (track.name@, track.zones@),
        None => ("Event track"@, Seq::empty()),
    };
    seq![node(1, "EVENT STREAM"@, name, Tone::Event, true)] + match track {
        Some(track) => lens(structure_lens, property("Track ID"@, track.id@)) + lens(
            structure_lens,
            property("Path"@, track.path@),
        ),
        None => Seq::empty(),
    } + seq![
        RowModel::Connector,
        node(2, "INSTRUMENT"@, "Slice Sampler"@, Tone::Event, true),
        property("Zones"@, decimal(zones.len())),
    ] + zones_rows(zones, structure_lens) + seq![
        RowModel::Connector,
        node(3, "TRACK OUTPUT"@, "stereo"@, Tone::Highlight, true),
    ]
}

fn describe_zone(zone: &ZoneInfo) -> (text: String)
    ensures
        text@ == zone_text(*zone),
{
    let mut text = copied(&zone.asset_id);
    text.append(" · root ");
    push_decimal(&mut text, zone.root_note as u64);
    text.append(" · notes ");
    push_decimal(&mut text, zone.low_note as u64);
    text.append("–");
    push_decimal(&mut text, zone.high_note as u64);
    text.append(" · velocity ");
    push_decimal(&mut text, zone.low_velocity as u64);
    text.append("–");
    push_decimal(&mut text, zone.high_velocity as u64);
    assert(text@ =~= zone_text(*zone));
    text
}

/// The rows of a sampler; the track may be gone.
pub fn sampler_inspector(track: &Option<SamplerTrack>, structure_lens: bool) -> (rows: Vec<
    SignalRow,
>)
    ensures
        shown(rows@) == sampler_rows(*track, structure_lens),
{
    let mut rows: Vec<SignalRow> = Vec::new();
    assert(shown(rows@) =~= Seq::empty());
    match track {
        None => {
            show_node(&mut rows, 1, "EVENT STREAM", "Event track", Tone::Event, true);
            show(&mut rows, SignalRow::Connector);
            show_node(&mut rows, 2, "INSTRUMENT", "Slice Sampler", Tone::Event, true);
            show_property(&mut rows, "Zones", decimal_text(0));
        },
        Some(track) => {
            show_node(&mut rows, 1, "EVENT STREAM", track.name.as_str(), Tone::Event, true);
            show_lens(&mut rows, structure_lens, "Track ID", track.id.as_str());
            show_lens(&mut rows, structure_lens, "Path", track.path.as_str());
            show(&mut rows, SignalRow::Connector);
            show_node(&mut rows, 2, "INSTRUMENT", "Slice Sampler", Tone::Event, true);
            show_property(&mut rows, "Zones", decimal_text(track.zones.len() as u64));
            let ghost start = shown(rows@);
            let mut index: usize = 0;
            assert(track.zones@.take(0) =~= Seq::empty());
            assert(start =~= start + zones_rows(track.zones@.take(0), structure_lens));
            while index < track.zones.len()
                invariant
                    index <= track.zones.len(),
                    shown(rows@) == start + zones_rows(
                        track.zones@.take(index as int),
                        structure_lens,
                    ),
                decreases track.zones.len() - index,
            {
                let ghost before = shown(rows@);
                let zone = &track.zones[index];
                show_property(&mut rows, zone.name.as_str(), describe_zone(zone));
                show_lens(&mut rows, structure_lens, "Zone ID", zone.id.as_str());
                show_lens(&mut rows, structure_lens, "Path", zone.path.as_str());
                assert(shown(rows@) =~= before + zone_rows(*zone, structure_lens));
                assert(track.zones@.take(index + 1).drop_last() =~= track.zones@.take(
                    index as int,
                ));
                index += 1;
                assert(shown(rows@) =~= start + zones_rows(
                    track.zones@.take(index as int),
                    structure_lens,
                ));
            }
            assert(track.zones@.take(index as int) =~= track.zones@);
        },
    }
    show(&mut rows, SignalRow::Connector);
    show_node(&mut rows, 3, "TRACK OUTPUT", "stereo", Tone::Highlight, true);
    assert(shown(rows@) =~= sampler_rows(*track, structure_lens));
    rows
}

/// A stack of processors.
#[derive(Clone, Copy, Debug, PartialEq, Eq, Structural)]
pub enum ProcessorStack {
    Clip(u128),
    CompositionClip(u128),
    Track(u128),
    CompositionOutput(u128),
}

/// The track and the clip whose stacks can be shown.
pub open spec fn scope_of(selection: Selection) -> (Option<usize>, Option<usize>) {
    match selection {
        Selection::Clip { track, clip } => (Some(track), Some(clip)),
        Selection::Effect { track, clip, .. } => (Some(track), Some(clip)),
        Selection::Track { track } => (Some(track), None),
        Selection::Sampler { track } => (Some(track), None),
        _ => (None, None),
    }
}

/// The track and the clip whose stacks can be shown.
pub fn scope_places(selection: Selection) -> (places: (Option<usize>, Option<usize>))
    ensures
        places == scope_of(selection),
{
    match selection {
        Selection::Clip { track, clip } | Selection::Effect { track, clip, .. } => (
            Some(track),
            Some(clip),
        ),
        Selection::Track { track } | Selection::Sampler { track } => (Some(track), None),
        _ => (None, None),
    }
}

/// A button that switches to a stack.
#[derive(Clone, Copy, Debug)]
pub struct ScopeButton {
    pub label: &'static str,
    pub stack: Option<ProcessorStack>,
    pub selected: bool,
}

/// The name of the output of a composition.
pub open spec fn output_name(composition: u128, root: u128) -> Seq<char> {
    if composition == root {
        "MASTER"@
    } else {
        "OUTPUT"@
    }
}

/// The buttons that switch between the stacks: of the clip, of its track, and of the
/// output of the composition that is shown.
pub fn signal_scope_switch(
    clip: Option<ProcessorStack>,
    track: Option<u128>,
    composition: u128,
    root: u128,
    selected: Option<ProcessorStack>,
) -> (buttons: (ScopeButton, ScopeButton, ScopeButton))
    ensures
        buttons.0.label@ == "CLIP"@,
        buttons.0.stack == clip,
        buttons.1.label@ == "TRACK"@,
        buttons.1.stack == match track {
            Some(id) => Some(ProcessorStack::Track(id)),
            None => None,
        },
        buttons.2.label@ == output_name(composition, root),
        buttons.2.stack == Some(ProcessorStack::CompositionOutput(composition)),
        buttons.0.selected == (buttons.0.stack is Some && buttons.0.stack == selected),
        buttons.1.selected == (buttons.1.stack is Some && buttons.1.stack == selected),
        buttons.2.selected == (buttons.2.stack == selected),
{
    let track_stack = match track {
        Some(id) => Some(ProcessorStack::Track(id)),
        None => None,
    };
    let output = Some(ProcessorStack::CompositionOutput(composition));
    (
        ScopeButton { label: "CLIP", stack: clip, selected: clip.is_some() && clip == selected },
        ScopeButton {
            label: "TRACK",
            stack: track_stack,
            selected: track_stack.is_some() && track_stack == selected,
        },
        ScopeButton {
            label: if composition == root {
                "MASTER"
            } else {
                "OUTPUT"
            },
            stack: output,
            selected: output == selected,
        },
    )
}

/// Whether a remark tells that the master is edited from within another composition.
pub fn edits_master(composition: u128, root: u128, selected: Option<ProcessorStack>) -> (yes: bool)
    ensures
        yes == (composition != root && selected == Some(ProcessorStack::CompositionOutput(root))),
{
    composition != root && selected == Some(ProcessorStack::CompositionOutput(root))
}

/// What a stack is about, in a line.
pub open spec fn reach_text(stack: ProcessorStack, root: u128) -> Seq<char> {
    match stack {
        ProcessorStack::Clip(_) => "This clip only"@,
        ProcessorStack::CompositionClip(_) => "This placement only"@,
        ProcessorStack::Track(_) => "All clips on this track"@,
        ProcessorStack::CompositionOutput(id) => if id == root {
            "Whole song output"@
        } else {
            "This composition's output"@
        },
    }
}

/// What a stack is about, in a line.
pub fn reach(stack: ProcessorStack, root: u128) -> (text: &'static str)
    ensures
        text@ == reach_text(stack, root),
{
    match stack {
        ProcessorStack::Clip(_) => "This clip only",
        ProcessorStack::CompositionClip(_) => "This placement only",
        ProcessorStack::Track(_) => "All clips on this track",
        ProcessorStack::CompositionOutput(id) => if id == root {
            "Whole song output"
        } else {
            "This composition's output"
        },
    }
}

/// The first place from `from` on at which a text stands, or -1.
pub open spec fn first_place(text: Seq<char>, part: Seq<char>, from: int) -> int
    decreases crate::pages::greatest(text.len() - from, 0),
{
    if from < 0 || from >= text.len() {
        -1
    } else if stands_at(text, part, from) {
        from
    } else {
        first_place(text, part, from + 1)
    }
}

/// A label in its two parts: what comes before the first dot between spaces, and what
/// comes after it. A label without one is that of some signal.
pub open spec fn label_parts(label: Seq<char>) -> (Seq<char>, Seq<char>) {
    let mark = seq![' ', '·', ' '];
    let place = first_place(label, mark, 0);
    if place >= 0 {
        (label.take(place), label.skip(place + 3))
    } else {
        ("SIGNAL"@, label)
    }
}

/// A label in its two parts.
pub fn split_label(label: &str) -> (parts: (String, String))
    ensures
        (parts.0@, parts.1@) == label_parts(label@),
{
    let letters = letters_of(label);
    let ghost mark = seq![' ', '·', ' '];
    let mut place: usize = 0;
    while place < letters.len()
        invariant
            place <= letters.len(),
            letters@ == label@,
            mark == seq![' ', '·', ' '],
            first_place(label@, mark, 0) == first_place(label@, mark, place as int),
        decreases letters.len() - place,
    {
        let fits = letters.len() - place >= 3 && letters[place] == ' ' && letters[place + 1] == '·'
            && letters[place + 2] == ' ';
        proof {
            if fits {
                assert(label@.subrange(place as int, place + 3) =~= mark);
            } else if stands_at(label@, mark, place as int) {
                let part = label@.subrange(place as int, place + 3);
                assert(part[0] == label@[place as int] && part[1] == label@[place + 1] && part[2]
                    == label@[place + 2]);
            }
        }
        if fits {
            let before = text_between(&letters, 0, place);
            let after = text_between(&letters, place + 3, letters.len());
            assert(before@ =~= label@.take(place as int));
            assert(after@ =~= label@.skip(place + 3));
            return (before, after);
        }
        place += 1;
    }
    (String::from_str("SIGNAL"), String::from_str(label))
}

/// What the user does with a stack.
#[derive(Clone, Copy, Debug)]
pub enum StackEvent {
    OpenSampler,
    OpenEqualizer,
    Insert(usize),
    Select(usize),
    Toggle(usize),
    Up(usize),
    Down(usize),
    Remove(usize),
}

/// What is to be done with a stack.
#[derive(Clone, Copy, Debug, PartialEq, Eq, Structural)]
pub enum StackAction {
    Apply(Intent),
    OpenEqualizer(ProcessorStack),
    Insert { stack: ProcessorStack, processor: usize },
    Select { stack: ProcessorStack, index: usize },
    Toggle { stack: ProcessorStack, index: usize },
    Move { stack: ProcessorStack, index: usize, delta: i8 },
    Remove { stack: ProcessorStack, index: usize },
}

/// A clip with notes is selected, and its own processors are shown.
pub open spec fn offers_sampler(selection: Selection, stack: ProcessorStack, holds_notes: bool)
    -> bool {
    scope_of(selection).1 is Some && stack is Clip && holds_notes
}

/// What an event asks for of a stack with `count` processors.
pub open spec fn stack_action(
    stack: ProcessorStack,
    selection: Selection,
    holds_notes: bool,
    count: nat,
    event: StackEvent,
) -> Option<StackAction> {
    match event {
        StackEvent::OpenSampler => if offers_sampler(selection, stack, holds_notes) {
            Some(
                StackAction::Apply(
                    Intent::Select(Selection::Sampler { track: scope_of(selection).0->0 }),
                ),
            )
        } else {
            None
        },
        StackEvent::OpenEqualizer => Some(StackAction::OpenEqualizer(stack)),
        StackEvent::Insert(processor) => Some(StackAction::Insert { stack, processor }),
        StackEvent::Select(index) => if index < count {
            Some(StackAction::Select { stack, index })
        } else {
            None
        },
        StackEvent::Toggle(index) => if index < count {
            Some(StackAction::Toggle { stack, index })
        } else {
            None
        },
        StackEvent::Up(index) => if 0 < index < count {
            Some(StackAction::Move { stack, index, delta: -1i8 })
        } else {
            None
        },
        StackEvent::Down(index) => if index + 1 < count {
            Some(StackAction::Move { stack, index, delta: 1 })
        } else {
            None
        },
        StackEvent::Remove(index) => if index < count {
            Some(StackAction::Remove { stack, index })
        } else {
            None
        },
    }
}

/// What an event asks for of a stack with `count` processors.
pub fn act_on_stack(
    stack: ProcessorStack,
    selection: Selection,
    holds_notes: bool,
    count: usize,
    event: StackEvent,
) -> (action: Option<StackAction>)
    ensures
        action == stack_action(stack, selection, holds_notes, count as nat, event),
{
    match event {
        StackEvent::OpenSampler => {
            let own = match stack {
                ProcessorStack::Clip(_) => true,
                _ => false,
            };
            match scope_places(selection) {
                (Some(track), Some(_)) => if own && holds_notes {
                    Some(StackAction::Apply(Intent::Select(Selection::Sampler { track })))
                } else {
                    None
                },
                _ => None,
            }
        },
        StackEvent::OpenEqualizer => Some(StackAction::OpenEqualizer(stack)),
        StackEvent::Insert(processor) => Some(StackAction::Insert { stack, processor }),
        StackEvent::Select(index) => if index < count {
            Some(StackAction::Select { stack, index })
        } else {
            None
        },
        StackEvent::Toggle(index) => if index < count {
            Some(StackAction::Toggle { stack, index })
        } else {
            None
        },
        StackEvent::Up(index) => if 0 < index && index < count {
            Some(StackAction::Move { stack, index, delta: -1 })
        } else {
            None
        },
        StackEvent::Down(index) => if count > 0 && index < count - 1 {
            Some(StackAction::Move { stack, index, delta: 1 })
        } else {
            None
        },
        StackEvent::Remove(index) => if index < count {
            Some(StackAction::Remove { stack, index })
        } else {
            None
        },
    }
}

/// The kind of the equalizer.
pub open spec fn is_equalizer(kind: Seq<char>) -> bool {
    kind == "gaw.parametric_eq"@
}

/// A processor of a stack, as it is shown.
#[derive(Clone, Copy, Debug)]
pub struct StackRow {
    pub order: usize,
    pub selected: bool,
    pub enabled: bool,
    pub hint: &'static str,
    /// A small picture of the curve is shown.
    pub thumbnail: bool,
    pub up: bool,
    pub down: bool,
    /// The signal goes on to another processor.
    pub connected: bool,
}

/// Whether a row shows a processor of a stack.
pub open spec fn row_shows(
    row: StackRow,
    effects: Seq<EffectInfo>,
    selected: Option<String>,
    index: int,
) -> bool {
    let effect = effects[index];
    &&& row.order == index + 1
    &&& row.selected == (selected matches Some(id) && id@ == effect.id@)
    &&& row.enabled == effect.enabled
    &&& row.hint@ == if is_equalizer(effect.kind@) {
        "Open the floating EQ panel"@
    } else {
        "Open effect controls"@
    }
    &&& row.thumbnail == is_equalizer(effect.kind@)
    &&& row.up == (index > 0)
    &&& row.down == (index + 1 < effects.len())
    &&& row.connected == (index + 1 < effects.len())
}

/// The processors of a stack, as they are shown; `selected` is the id of the one whose
/// controls are open.
pub fn signal_stack_inspector(effects: &Vec<EffectInfo>, selected: &Option<String>) -> (rows: Vec<
    StackRow,
>)
    ensures
        rows@.len() == effects@.len(),
        forall|i: int|
            0 <= i < rows@.len() ==> row_shows(#[trigger] rows@[i], effects@, *selected, i),
{
    let mut rows: Vec<StackRow> = Vec::new();
    let count: usize = effects.len();
    let mut index: usize = 0;
    while index < count
        invariant
            index <= count,
            count == effects@.len(),
            rows@.len() == index,
            forall|i: int|
                0 <= i < rows@.len() ==> row_shows(#[trigger] rows@[i], effects@, *selected, i),
        decreases count - index,
    {
        let effect = &effects[index];
        let equalizer = same_text(effect.kind.as_str(), "gaw.parametric_eq");
        let chosen = match selected {
            Some(id) => same_text(id.as_str(), effect.id.as_str()),
            None => false,
        };
        let more = index < count - 1;
        rows.push(
            StackRow {
                order: index + 1,
                selected: chosen,
                enabled: effect.enabled,
                hint: if equalizer {
                    "Open the floating EQ panel"
                } else {
                    "Open effect controls"
                },
                thumbnail: equalizer,
                up: index > 0,
                down: more,
                connected: more,
            },
        );
        index += 1;
    }
    rows
}

/// The heading above the processors of a stack.
pub fn stack_heading(label: &str) -> (text: String)
    ensures
        text@ == label_parts(label@).0 + " EFFECTS"@,
{
    let parts = split_label(label);
    joined(parts.0.as_str(), " EFFECTS")
}

/// The text of a button that switches a processor.
pub fn switch_label(enabled: bool) -> (label: &'static str)
    ensures
        label@ == if enabled {
            "ON"@
        } else {
            "OFF"@
        },
{
    if enabled {
        "ON"
    } else {
        "OFF"
    }
}

/// Whatever an inspector does to the tempo of an asset, the first beat stays in the file
/// if it was there.
pub proof fn first_beat_stays_in_the_file(
    tools: TempoTools,
    asset: AssetDetails,
    event: TempoEvent,
)
    requires
        known_beat(asset.first_beat) <= asset.duration,
    ensures
        tempo_edit(tools, asset, event) matches Some(edit) ==> edit.first_beat <= asset.duration,
{
}

/// Tempos that are tapped lie between twenty and four hundred beats per minute.
pub proof fn tapped_tempos_are_usable(tools: TempoTools, asset: AssetDetails, now: u64)
    ensures
        tempo_edit(tools, asset, TempoEvent::Tap(now)) matches Some(edit) ==> 20_000 <= edit.tempo
            <= 400_000,
{
    if taps_count(tools.last_tap, now) {
        let apart = now - tools.last_tap->0;
        let doubled = 120_000_000_000_000 + apart;
        assert(20_000 <= doubled / (2 * apart) <= 400_000) by (nonlinear_arith)
            requires
                150_000_000 <= apart <= 3_000_000_000,
                doubled == 120_000_000_000_000 + apart,
        ;
    }
}

/// The tempo of a file is what was put in between 20 and 400 beats per minute, or half or twice
/// what it was; the first beat stays where it is. Another first beat leaves the tempo.
pub proof fn tempo_fields_set_what_they_name(
    tools: TempoTools,
    asset: AssetDetails,
    tempo: u32,
    beat: u64,
    wanted: u32,
    time: u64,
)
    requires
        asset.tempo == Some(tempo),
        asset.first_beat == Some(beat),
    ensures
        20_000 <= wanted <= 400_000 ==> tempo_edit(tools, asset, TempoEvent::Tempo(wanted)) == Some(
            TempoEdit { tempo: wanted as u64, first_beat: beat, suggested: false },
        ),
        wanted < 20_000 ==> tempo_edit(tools, asset, TempoEvent::Tempo(wanted))->0.tempo == 20_000,
        wanted > 400_000 ==> tempo_edit(tools, asset, TempoEvent::Tempo(wanted))->0.tempo
            == 400_000,
        tempo_edit(tools, asset, TempoEvent::Double) == Some(
            TempoEdit { tempo: (2 * tempo) as u64, first_beat: beat, suggested: false },
        ),
        tempo_edit(tools, asset, TempoEvent::Half) matches Some(edit) && 2 * edit.tempo <= tempo
            < 2 * edit.tempo + 2 && edit.first_beat == beat && !edit.suggested,
        time <= asset.duration ==> tempo_edit(tools, asset, TempoEvent::FirstBeat(time)) == Some(
            TempoEdit { tempo: tempo as u64, first_beat: time, suggested: false },
        ),
        tempo_edit(tools, asset, TempoEvent::Usual) == Some(
            TempoEdit { tempo: 120_000, first_beat: beat, suggested: true },
        ),
{
}

/// Two taps count where they are between 0.15 and 3 seconds apart, and give the tempo at which a
/// beat lasts as long, to the nearest thousandth; every tap is remembered.
pub proof fn taps_give_the_tempo_between_them(
    tools: TempoTools,
    asset: AssetDetails,
    last: u64,
    now: u64,
)
    requires
        tools.last_tap == Some(last),
    ensures
        tools_after(tools, asset, TempoEvent::Tap(now)) == (TempoTools {
            last_tap: Some(now),
            ..tools
        }),
        150_000_000 <= now - last <= 3_000_000_000 <==> tempo_edit(
            tools,
            asset,
            TempoEvent::Tap(now),
        ) is Some,
        tempo_edit(tools, asset, TempoEvent::Tap(now)) matches Some(edit) ==> -(now - last) < 2 * (
        edit.tempo * (now - last) - 60_000_000_000_000) <= now - last,
{
    tapped_tempos_are_usable(tools, asset, now);
    if 150_000_000 <= now - last <= 3_000_000_000 {
        lemma_nearest_tempo(120_000_000_000_000, now - last);
    }
}

proof fn lemma_nearest_tempo(doubled: int, nanos: int)
    requires
        0 < nanos,
        0 <= doubled,
    ensures
        -nanos < 2 * ((doubled + nanos) / (2 * nanos) * nanos) - doubled <= nanos,
        0 <= (doubled + nanos) / (2 * nanos),
{
    let total = doubled + nanos;
    let by = 2 * nanos;
    let tempo = total / by;
    vstd::arithmetic::div_mod::lemma_fundamental_div_mod(total, by);
    assert(0 <= total % by < by) by (nonlinear_arith)
        requires
            0 < by,
    ;
    assert(by * tempo == 2 * (tempo * nanos)) by (nonlinear_arith)
        requires
            by == 2 * nanos,
    ;
    assert(0 <= tempo) by (nonlinear_arith)
        requires
            tempo == total / by,
            0 <= total,
            0 < by,
    ;
}

/// The tempo that fits a region is the one at which it has so many beats, to the nearest
/// thousandth; a region without length fits none.
pub proof fn fitted_tempos_give_the_region_its_beats(tools: TempoTools, asset: AssetDetails)
    ensures
        tools.region_end <= tools.region_start ==> tempo_edit(tools, asset, TempoEvent::Fit)
            is None,
        tools.region_end > tools.region_start ==> {
            let nanos = tools.region_end - tools.region_start;
            tempo_edit(tools, asset, TempoEvent::Fit) matches Some(edit) && (edit.tempo < u64::MAX
                ==> -nanos < 2 * (edit.tempo * nanos - tools.region_beats * 60_000_000_000)
                <= nanos)
        },
{
    if tools.region_end > tools.region_start {
        let nanos = tools.region_end - tools.region_start;
        lemma_nearest_tempo(tools.region_beats as int * 120_000_000_000, nanos);
    }
}

/// The region is where it was put, within the file, and has between one and 128 beats.
pub proof fn regions_are_where_they_are_put(
    tools: TempoTools,
    asset: AssetDetails,
    time: u64,
    beats: u32,
)
    ensures
        time <= asset.duration ==> tools_after(tools, asset, TempoEvent::RegionStart(time)) == (
        TempoTools { region_start: time, ..tools }),
        time <= asset.duration ==> tools_after(tools, asset, TempoEvent::RegionEnd(time)) == (
        TempoTools { region_end: time, ..tools }),
        time > asset.duration ==> tools_after(
            tools,
            asset,
            TempoEvent::RegionEnd(time),
        ).region_end == asset.duration,
        1_000 <= beats <= 128_000 ==> tools_after(tools, asset, TempoEvent::RegionBeats(beats)) == (
        TempoTools { region_beats: beats, ..tools }),
        tempo_edit(tools, asset, TempoEvent::RegionStart(time)) is None,
        tempo_edit(tools, asset, TempoEvent::RegionEnd(time)) is None,
        tempo_edit(tools, asset, TempoEvent::RegionBeats(beats)) is None,
{
}

/// The inspector shows what is selected; an effect is shown with its clip.
pub proof fn inspectors_show_the_selection(track: usize, clip: usize, effect: usize)
    ensures
        inspector_of(Selection::Asset(clip)) == InspectorKind::Asset(clip),
        inspector_of(Selection::MidiAsset(clip)) == InspectorKind::MidiAsset(clip),
        inspector_of(Selection::Sampler { track }) == InspectorKind::Sampler(track),
        inspector_of(Selection::Clip { track, clip }) == (InspectorKind::Clip { track, clip }),
        inspector_of(Selection::Effect { track, clip, effect }) == (InspectorKind::Clip {
            track,
            clip,
        }),
        inspector_of(Selection::Nothing) is Empty,
        inspector_of(Selection::Track { track }) is Empty,
        scope_of(Selection::Clip { track, clip }) == (Some(track), Some(clip)),
        scope_of(Selection::Effect { track, clip, effect }) == (Some(track), Some(clip)),
        scope_of(Selection::Track { track }) == (Some(track), None::<usize>),
        scope_of(Selection::Sampler { track }) == (Some(track), None::<usize>),
        scope_of(Selection::Nothing) == (None::<usize>, None::<usize>),
        scope_of(Selection::Asset(clip)) == (None::<usize>, None::<usize>),
{
}

/// The buttons of a stack act on the processor whose they are, in this stack; the first cannot go
/// up, the last not down.
pub proof fn stack_buttons_act_on_their_processor(
    stack: ProcessorStack,
    selection: Selection,
    holds_notes: bool,
    count: nat,
    index: usize,
)
    ensures
        ({
            let there = index < count;
            let toggled = stack_action(
                stack,
                selection,
                holds_notes,
                count,
                StackEvent::Toggle(index),
            );
            let chosen = stack_action(
                stack,
                selection,
                holds_notes,
                count,
                StackEvent::Select(index),
            );
            let up = stack_action(stack, selection, holds_notes, count, StackEvent::Up(index));
            let down = stack_action(stack, selection, holds_notes, count, StackEvent::Down(index));
            let gone = stack_action(
                stack,
                selection,
                holds_notes,
                count,
                StackEvent::Remove(index),
            );
            &&& there ==> toggled == Some(StackAction::Toggle { stack, index })
            &&& there ==> chosen == Some(StackAction::Select { stack, index })
            &&& there ==> gone == Some(StackAction::Remove { stack, index })
            &&& there && index > 0 ==> up == Some(StackAction::Move { stack, index, delta: -1i8 })
            &&& index + 1 < count ==> down == Some(StackAction::Move { stack, index, delta: 1 })
            &&& index == 0 ==> up is None
            &&& index + 1 == count ==> down is None
            &&& !there ==> toggled is None && chosen is None && gone is None && up is None && down
                is None
            &&& stack_action(stack, selection, holds_notes, count, StackEvent::Insert(index))
                == Some(StackAction::Insert { stack, processor: index })
            &&& stack_action(stack, selection, holds_notes, count, StackEvent::OpenEqualizer)
                == Some(StackAction::OpenEqualizer(stack))
        }),
{
}

/// The sampler is opened from the stack of a clip that holds notes, on the track of the clip, and
/// from nowhere else.
pub proof fn samplers_are_opened_from_clips_with_notes(
    stack: ProcessorStack,
    track: usize,
    clip: usize,
    holds_notes: bool,
    count: nat,
)
    ensures
        ({
            let action = stack_action(
                stack,
                Selection::Clip { track, clip },
                holds_notes,
                count,
                StackEvent::OpenSampler,
            );
            &&& stack is Clip && holds_notes ==> action == Some(
                StackAction::Apply(Intent::Select(Selection::Sampler { track })),
            )
            &&& !(stack is Clip) || !holds_notes ==> action is None
            &&& stack_action(
                stack,
                Selection::Track { track },
                holds_notes,
                count,
                StackEvent::OpenSampler,
            ) is None
        }),
{
}

/// A label comes apart at its first dot between spaces; one without belongs to the signal.
pub proof fn labels_come_apart_at_the_first_dot(
    front: Seq<char>,
    mark: Seq<char>,
    back: Seq<char>,
)
    requires
        mark == seq![' ', '·', ' '],
        forall|place: int|
            0 <= place < front.len() ==> !#[trigger] stands_at(front + mark + back, mark, place),
    ensures
        label_parts(front + mark + back) == (front, back),
        !crate::text::occurs_in(back, mark) ==> label_parts(back) == ("SIGNAL"@, back),
{
    if !crate::text::occurs_in(back, mark) {
        lemma_no_place(back, mark, 0);
    }
    let label = front + mark + back;
    assert(label.subrange(front.len() as int, (front.len() + 3) as int) =~= mark);
    assert(stands_at(label, mark, front.len() as int));
    lemma_first_place(label, mark, 0, front.len() as int);
    assert(label.take(front.len() as int) =~= front);
    assert(label.skip((front.len() + 3) as int) =~= back);
}

proof fn lemma_no_place(text: Seq<char>, part: Seq<char>, from: int)
    requires
        0 <= from,
        !crate::text::occurs_in(text, part),
    ensures
        first_place(text, part, from) == -1,
    decreases crate::pages::greatest(text.len() - from, 0),
{
    if from < text.len() {
        assert(!stands_at(text, part, from));
        lemma_no_place(text, part, from + 1);
    }
}

proof fn lemma_first_place(text: Seq<char>, part: Seq<char>, from: int, place: int)
    requires
        0 <= from <= place < text.len(),
        stands_at(text, part, place),
        forall|i: int| from <= i < place ==> !#[trigger] stands_at(text, part, i),
    ensures
        first_place(text, part, from) == place,
    decreases place - from,
{
    if from < place {
        assert(!stands_at(text, part, from));
        lemma_first_place(text, part, from + 1, place);
    }
}

/// The inspector of a file shows its id, where its media is, and with the lens its path besides;
/// that of a sampler counts its zones and shows each.
pub proof fn inspectors_show_what_is_known(
    asset: AssetDetails,
    zones: Seq<ZoneInfo>,
    zone: ZoneInfo,
    structure_lens: bool,
)
    ensures
        asset_rows(asset, structure_lens).contains(property("Stable ID"@, asset.id@)),
        asset_rows(asset, true).contains(property("Path"@, asset.path@)),
        asset_rows(asset, true).len() == asset_rows(asset, false).len() + 1,
        asset.media_path matches Some(path) ==> asset_rows(asset, false).contains(
            property("Media"@, path@),
        ),
        zones_rows(zones.push(zone), structure_lens) == zones_rows(zones, structure_lens)
            + zone_rows(zone, structure_lens),
        zone_rows(zone, structure_lens)[0] == property(zone.name@, zone_text(zone)),
        zone_rows(zone, true).len() == 3 && zone_rows(zone, false).len() == 1,
{
    assert(zones.push(zone).drop_last() =~= zones);
    assert(asset_rows(asset, structure_lens)[1] == property("Stable ID"@, asset.id@));
    assert(asset_rows(asset, true)[2] == property("Path"@, asset.path@));
    if let Some(path) = asset.media_path {
        assert(asset_rows(asset, false)[3] == property("Media"@, path@));
    }
}

/// A row of the stack shows its own processor: its number, whether it is selected and on, and
/// where it can go.
pub proof fn stack_rows_show_their_processor(
    row: StackRow,
    effects: Seq<EffectInfo>,
    id: String,
    index: int,
)
    requires
        0 <= index < effects.len(),
        row_shows(row, effects, Some(id), index),
    ensures
        row.order == index + 1,
        row.selected <==> id@ == effects[index].id@,
        row.enabled == effects[index].enabled,
        index == 0 ==> !row.up,
        index > 0 ==> row.up,
        index == effects.len() - 1 ==> !row.down && !row.connected,
        index < effects.len() - 1 ==> row.down && row.connected,
        row.thumbnail <==> effects[index].kind@ == "gaw.parametric_eq"@,
{
}

/// The output of the outermost composition is the master, and reaches the whole song.
pub proof fn the_outermost_output_is_the_master(composition: u128, root: u128)
    ensures
        output_name(root, root) == "MASTER"@,
        composition != root ==> output_name(composition, root) == "OUTPUT"@,
        reach_text(ProcessorStack::CompositionOutput(root), root) == "Whole song output"@,
        composition != root ==> reach_text(ProcessorStack::CompositionOutput(composition), root)
            == "This composition's output"@,
        reach_text(ProcessorStack::Clip(composition), root) == "This clip only"@,
        reach_text(ProcessorStack::CompositionClip(composition), root) == "This placement only"@,
        reach_text(ProcessorStack::Track(composition), root) == "All clips on this track"@,
{
}

/// What is put beyond the file rests at its end, and a region has no less than one beat and no
/// more than 128.
pub proof fn regions_rest_at_the_ends_of_the_file(
    tools: TempoTools,
    asset: AssetDetails,
    time: u64,
    beats: u32,
)
    ensures
        time > asset.duration ==> tools_after(
            tools,
            asset,
            TempoEvent::RegionStart(time),
        ).region_start == asset.duration,
        time > asset.duration ==> (tempo_edit(tools, asset, TempoEvent::FirstBeat(time)) matches Some(
            edit,
        ) && edit.first_beat == asset.duration),
        beats < 1_000 ==> tools_after(tools, asset, TempoEvent::RegionBeats(beats)).region_beats
            == 1_000,
        beats > 128_000 ==> tools_after(tools, asset, TempoEvent::RegionBeats(beats)).region_beats
            == 128_000,
        asset.tempo is None ==> (tempo_edit(tools, asset, TempoEvent::Double) matches Some(edit)
            && edit.tempo == 240_000),
        asset.first_beat is None ==> (tempo_edit(tools, asset, TempoEvent::Usual) matches Some(edit)
            && edit.first_beat == 0),
        tools_after(tools, asset, TempoEvent::Fit) == tools,
{
}

/// The stages of an instrument are shown in turn: the notes, the sampler with the number of its
/// zones, and the output of the track. A file is shown as a source that is on.
pub proof fn instruments_are_shown_in_three_stages(
    track: SamplerTrack,
    structure_lens: bool,
    asset: AssetDetails,
)
    ensures
        ({
            let rows = sampler_rows(Some(track), structure_lens);
            &&& rows[0] == node(1, "EVENT STREAM"@, track.name@, Tone::Event, true)
            &&& rows.contains(node(2, "INSTRUMENT"@, "Slice Sampler"@, Tone::Event, true))
            &&& rows.contains(property("Zones"@, decimal(track.zones@.len())))
            &&& rows.last() == node(3, "TRACK OUTPUT"@, "stereo"@, Tone::Highlight, true)
        }),
        asset_rows(asset, structure_lens)[0] == node(
            1,
            "SOURCE ASSET"@,
            asset.name@,
            Tone::Audio,
            true,
        ),
        asset_media_rows(asset)[0] == property(
            "Sample rate"@,
            decimal(asset.sample_rate as nat) + " Hz"@,
        ),
        asset_media_rows(asset)[1] == property("Frames"@, decimal(asset.frames as nat)),
        asset_media_rows(asset)[2] == property("Revisions"@, decimal(asset.revisions as nat)),
{
    let rows = sampler_rows(Some(track), structure_lens);
    let start: int = if structure_lens {
        3
    } else {
        1
    };
    assert(rows[start + 1] == node(2, "INSTRUMENT"@, "Slice Sampler"@, Tone::Event, true));
    assert(rows[start + 2] == property("Zones"@, decimal(track.zones@.len())));
}

} // verus!
