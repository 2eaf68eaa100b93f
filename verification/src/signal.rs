//! The signal path of what is selected, from its source to the output, as rows to show and
//! the changes that their buttons ask for.
//!
//! Times are counted in nanoseconds, tempos in thousandths of a beat per minute, gains in
//! thousandths of a decibel.
use crate::controller::RenderState;
use crate::intents::{Intent, Selection};
use crate::numbers::{fixed, push_fixed, Precision};
use vstd::prelude::*;

verus! {

/// The colours of the path.
#[derive(Clone, Copy, Debug, PartialEq, Eq, Structural)]
pub enum Tone {
    Audio,
    Event,
    Nested,
    Highlight,
}

/// Whose processors a row is about.
#[derive(Clone, Copy, Debug, PartialEq, Eq, Structural)]
pub enum Scope {
    Clip,
    Track,
    Output,
}

/// A button that belongs to the clip itself.
#[derive(Clone, Copy, Debug, PartialEq, Eq, Structural)]
pub enum ClipButton {
    OpenSampler,
    OpenComposition,
}

/// A row of the path.
#[derive(Debug)]
pub enum SignalRow {
    Node { order: usize, kind: String, name: String, tone: Tone, enabled: bool },
    Property { label: String, value: String },
    Connector,
    Heading(&'static str),
    /// A list of processors to add.
    Chooser(Scope),
    Remark(&'static str),
    Button(ClipButton),
    /// The buttons of a processor: on or off, up, down and away.
    Controls { scope: Scope, index: usize, enabled: bool, up: bool, down: bool, editing: bool },
}

/// What a row shows.
pub enum RowModel {
    Node { order: int, kind: Seq<char>, name: Seq<char>, tone: Tone, enabled: bool },
    Property { label: Seq<char>, value: Seq<char> },
    Connector,
    Heading(Seq<char>),
    Chooser(Scope),
    Remark(Seq<char>),
    Button(ClipButton),
    Controls { scope: Scope, index: int, enabled: bool, up: bool, down: bool, editing: bool },
}

impl View for SignalRow {
    type V = RowModel;

    open spec fn view(&self) -> RowModel {
        match *self {
            SignalRow::Node { order, kind, name, tone, enabled } => RowModel::Node {
                order: order as int,
                kind: kind@,
                name: name@,
                tone,
                enabled,
            },
            SignalRow::Property { label, value } => RowModel::Property {
                label: label@,
                value: value@,
            },
            SignalRow::Connector => RowModel::Connector,
            SignalRow::Heading(text) => RowModel::Heading(text@),
            SignalRow::Chooser(scope) => RowModel::Chooser(scope),
            SignalRow::Remark(text) => RowModel::Remark(text@),
            SignalRow::Button(button) => RowModel::Button(button),
            SignalRow::Controls { scope, index, enabled, up, down, editing } => RowModel::Controls {
                scope,
                index: index as int,
                enabled,
                up,
                down,
                editing,
            },
        }
    }
}

/// What rows show.
pub open spec fn shown(rows: Seq<SignalRow>) -> Seq<RowModel> {
    rows.map_values(|row: SignalRow| row@)
}

/// A processor.
#[derive(Debug)]
pub struct EffectInfo {
    pub id: String,
    pub kind: String,
    pub name: String,
    pub enabled: bool,
}

/// How the audio of a clip is played.
#[derive(Clone, Copy, Debug)]
pub struct AudioDetails {
    pub source_start: u64,
    pub source_duration: u64,
    pub reverse: bool,
    pub fade_in: bool,
    pub fade_out: bool,
}

/// What a clip holds.
#[derive(Debug)]
pub enum ClipContent {
    Audio {
        details: Option<AudioDetails>,
        asset_id: Option<String>,
        source_tempo: Option<u32>,
        sync_label: String,
    },
    Event,
    Composition { child: String, render: RenderState },
}

/// A clip with what its signal passes through.
#[derive(Debug)]
pub struct ClipPath {
    pub track: usize,
    pub clip: usize,
    pub clip_id: String,
    pub clip_name: String,
    pub track_id: String,
    pub track_name: String,
    pub composition_id: String,
    pub composition_name: String,
    pub composition_path: String,
    pub content: ClipContent,
    pub gain: i32,
    pub project_tempo: u32,
    pub structure_lens: bool,
    /// The clip can be given processors.
    pub has_clip_stack: bool,
    /// The track can be given processors.
    pub has_track_stack: bool,
    pub effects: Vec<EffectInfo>,
    pub track_effects: Vec<EffectInfo>,
    pub output_effects: Vec<EffectInfo>,
    pub selection: Selection,
}

/// A row for a stage of the path.
pub open spec fn node(order: int, kind: Seq<char>, name: Seq<char>, tone: Tone, enabled: bool)
    -> RowModel {
    RowModel::Node { order, kind, name, tone, enabled }
}

/// A row for a value.
pub open spec fn property(label: Seq<char>, value: Seq<char>) -> RowModel {
    RowModel::Property { label, value }
}

/// A row only where the structure of the project is shown.
pub open spec fn lens(on: bool, row: RowModel) -> Seq<RowModel> {
    if on {
        seq![row]
    } else {
        Seq::empty()
    }
}

/// A switch in words.
pub open spec fn switch(on: bool) -> Seq<char> {
    if on {
        "on"@
    } else {
        "off"@
    }
}

/// A gain with its sign.
pub open spec fn gain_text(gain: int) -> Seq<char> {
    if gain < 0 {
        "-"@ + fixed((-gain) as nat, 1_000, 1, Precision::Single) + " dB"@
    } else {
        "+"@ + fixed(gain as nat, 1_000, 1, Precision::Single) + " dB"@
    }
}

/// The part of the file that is played, in seconds.
pub open spec fn range_text(details: AudioDetails) -> Seq<char> {
    fixed(
        details.source_start as nat,
        1_000_000_000,
        2,
        Precision::Double,
    ) + "s → "@ + fixed(
        (details.source_start + details.source_duration) as nat,
        1_000_000_000,
        2,
        Precision::Double,
    ) + "s"@
}

/// The fades in words.
pub open spec fn fades_text(details: AudioDetails) -> Seq<char> {
    "in "@ + switch(details.fade_in) + " · out "@ + switch(details.fade_out)
}

/// The tempo of the file and that of the project.
pub open spec fn sync_text(source: u32, project: u32, label: Seq<char>) -> Seq<char> {
    fixed(source as nat, 1_000, 0, Precision::Single) + " → "@ + fixed(
        project as nat,
        1_000,
        0,
        Precision::Single,
    ) + " "@ + label
}

/// The render of a nested composition in words.
pub open spec fn render_text(render: RenderState) -> Seq<char> {
    match render {
        RenderState::Fresh => "current"@,
        RenderState::Stale => "stale · last render playing"@,
        RenderState::Rendering(_) => "rendering in background"@,
    }
}

/// Where a clip stands in the project's files.
pub open spec fn json_path(path: ClipPath) -> Seq<char> {
    "compositions/"@ + path.composition_id@ + "/tracks/"@ + path.track_id@ + ".json#/clips/"@
        + path.clip_id@
}

/// The rows of the clip itself.
pub open spec fn source_rows(path: ClipPath) -> Seq<RowModel> {
    let (label, tone) = match path.content {
        ClipContent::Audio { .. } => ("AUDIO ASSET"@, Tone::Audio),
        ClipContent::Event => ("EVENT DATA"@, Tone::Event),
        ClipContent::Composition { .. } => ("CHILD OUTPUT"@, Tone::Nested),
    };
    seq![node(1, label, path.clip_name@, tone, true)] + lens(
        path.structure_lens,
        property("ID"@, path.clip_id@),
    ) + lens(path.structure_lens, property("JSON"@, json_path(path))) + seq![RowModel::Connector]
}

/// The rows of what the clip holds.
pub open spec fn content_rows(path: ClipPath) -> Seq<RowModel> {
    match path.content {
        ClipContent::Audio { details, asset_id, source_tempo, sync_label } => seq![
            node(
                2,
                "PLAYBACK TRANSFORMS"@,
                "Source range → Reverse → Sync → Fades"@,
                Tone::Highlight,
                true,
            ),
        ] + match details {
            Some(details) => seq![
                property("Source range"@, range_text(details)),
                property("Reverse"@, switch(details.reverse)),
                property("Fades"@, fades_text(details)),
            ],
            None => Seq::empty(),
        } + match asset_id {
            Some(id) => seq![property("Asset"@, id@)],
            None => Seq::empty(),
        } + match source_tempo {
            Some(tempo) => seq![
                property("Tempo"@, sync_text(tempo, path.project_tempo, sync_label@)),
            ],
            None => Seq::empty(),
        },
        ClipContent::Event => seq![
            node(2, "INSTRUMENT"@, "Slice Sampler"@, Tone::Event, true),
            RowModel::Button(ClipButton::OpenSampler),
        ],
        ClipContent::Composition { child, render } => seq![
            node(
                2,
                "PARENT PLACEMENT"@,
                "Mute → placement processor stack"@,
                Tone::Nested,
                true,
            ),
            property("Child"@, child@),
            property("Render"@, render_text(render)),
            RowModel::Remark("Child internals are edited inside the composition."@),
            RowModel::Button(ClipButton::OpenComposition),
        ],
    }
}

/// The rows that introduce the processors of the clip.
pub open spec fn stack_rows(path: ClipPath) -> Seq<RowModel> {
    (if path.content is Composition {
        Seq::empty()
    } else {
        seq![property("Clip gain"@, gain_text(path.gain as int))]
    }) + seq![
        RowModel::Connector,
        RowModel::Heading(
            if path.content is Composition {
                "PLACEMENT EFFECTS"@
            } else {
                "CLIP EFFECTS"@
            },
        ),
    ] + (if path.has_clip_stack {
        seq![RowModel::Chooser(Scope::Clip)]
    } else {
        Seq::empty()
    })
}

/// The rows of one processor of the clip.
pub open spec fn clip_effect_rows(path: ClipPath, index: int) -> Seq<RowModel> {
    let effect = path.effects@[index];
    seq![
        node(index + 3, effect.kind@, effect.name@, Tone::Highlight, effect.enabled),
        RowModel::Controls {
            scope: Scope::Clip,
            index,
            enabled: effect.enabled,
            up: index > 0,
            down: index + 1 < path.effects@.len(),
            editing: path.selection == (Selection::Effect {
                track: path.track,
                clip: path.clip,
                effect: index as usize,
            }),
        },
    ] + lens(path.structure_lens, property("Processor ID"@, effect.id@)) + if index + 1
        < path.effects@.len() {
        seq![RowModel::Connector]
    } else {
        Seq::empty()
    }
}

/// The rows of the first processors of the clip.
pub open spec fn clip_effects_rows(path: ClipPath, count: nat) -> Seq<RowModel>
    decreases count,
{
    if count == 0 {
        Seq::empty()
    } else {
        clip_effects_rows(path, (count - 1) as nat) + clip_effect_rows(path, count - 1)
    }
}

/// The rows of the track.
pub open spec fn track_rows(path: ClipPath) -> Seq<RowModel> {
    seq![
        RowModel::Connector,
        node(
            path.effects@.len() as int + 3,
            "TRACK MIX + STACK"@,
            path.track_name@,
            Tone::Highlight,
            true,
        ),
        property("Order"@, "clip sum → track processors"@),
    ] + if path.has_track_stack {
        seq![RowModel::Chooser(Scope::Track)]
    } else {
        Seq::empty()
    }
}

/// The rows of one processor of the track.
pub open spec fn track_effect_rows(path: ClipPath, index: int) -> Seq<RowModel> {
    let effect = path.track_effects@[index];
    seq![
        RowModel::Connector,
        node(
            path.effects@.len() + 4 + index,
            "TRACK EFFECT"@,
            effect.name@,
            Tone::Highlight,
            effect.enabled,
        ),
    ] + (if path.has_track_stack {
        seq![
            RowModel::Controls {
                scope: Scope::Track,
                index,
                enabled: effect.enabled,
                up: true,
                down: true,
                editing: false,
            },
        ]
    } else {
        Seq::empty()
    }) + lens(path.structure_lens, property("Processor ID"@, effect.id@))
}

/// The rows of the first processors of the track.
pub open spec fn track_effects_rows(path: ClipPath, count: nat) -> Seq<RowModel>
    decreases count,
{
    if count == 0 {
        Seq::empty()
    } else {
        track_effects_rows(path, (count - 1) as nat) + track_effect_rows(path, count - 1)
    }
}

/// The rows of the output.
pub open spec fn output_rows(path: ClipPath) -> Seq<RowModel> {
    seq![
        RowModel::Connector,
        node(
            (path.effects@.len() + path.track_effects@.len() + 4) as int,
            "COMPOSITION OUTPUT"@,
            path.composition_name@,
            Tone::Nested,
            true,
        ),
        property("Order"@, "track sum → output stack"@),
    ] + lens(path.structure_lens, property("Path"@, path.composition_path@)) + seq![
        RowModel::Chooser(Scope::Output),
    ]
}

/// The rows of one processor of the output.
pub open spec fn output_effect_rows(path: ClipPath, index: int) -> Seq<RowModel> {
    let effect = path.output_effects@[index];
    seq![
        RowModel::Connector,
        node(
            path.effects@.len() + path.track_effects@.len() + 5 + index,
            "OUTPUT EFFECT"@,
            effect.name@,
            Tone::Nested,
            effect.enabled,
        ),
        RowModel::Controls {
            scope: Scope::Output,
            index,
            enabled: effect.enabled,
            up: true,
            down: true,
            editing: false,
        },
    ] + lens(path.structure_lens, property("Processor ID"@, effect.id@))
}

/// The rows of the first processors of the output.
pub open spec fn output_effects_rows(path: ClipPath, count: nat) -> Seq<RowModel>
    decreases count,
{
    if count == 0 {
        Seq::empty()
    } else {
        output_effects_rows(path, (count - 1) as nat) + output_effect_rows(path, count - 1)
    }
}

/// The rows of the whole path of a clip.
pub open spec fn clip_rows(path: ClipPath) -> Seq<RowModel> {
    source_rows(path) + content_rows(path) + stack_rows(path) + clip_effects_rows(
        path,
        path.effects@.len(),
    ) + track_rows(path) + track_effects_rows(path, path.track_effects@.len()) + output_rows(path)
        + output_effects_rows(path, path.output_effects@.len())
}

pub(crate) fn show(rows: &mut Vec<SignalRow>, row: SignalRow)
    ensures
        shown(final(rows)@) == shown(old(rows)@).push(row@),
        final(rows)@.len() == old(rows)@.len() + 1,
{
    rows.push(row);
    assert(shown(rows@) =~= shown(old(rows)@).push(row@));
}

pub(crate) fn show_node(
    rows: &mut Vec<SignalRow>,
    order: usize,
    kind: &str,
    name: &str,
    tone: Tone,
    enabled: bool,
)
    ensures
        shown(final(rows)@) == shown(old(rows)@).push(
            node(order as int, kind@, name@, tone, enabled),
        ),
        final(rows)@.len() == old(rows)@.len() + 1,
{
    show(
        rows,
        SignalRow::Node {
            order,
            kind: String::from_str(kind),
            name: String::from_str(name),
            tone,
            enabled,
        },
    );
}

pub(crate) fn show_property(rows: &mut Vec<SignalRow>, label: &str, value: String)
    ensures
        shown(final(rows)@) == shown(old(rows)@).push(property(label@, value@)),
        final(rows)@.len() == old(rows)@.len() + 1,
{
    show(rows, SignalRow::Property { label: String::from_str(label), value });
}

pub(crate) fn show_lens(rows: &mut Vec<SignalRow>, on: bool, label: &str, value: &str)
    ensures
        shown(final(rows)@) == shown(old(rows)@) + lens(on, property(label@, value@)),
        final(rows)@.len() <= old(rows)@.len() + 1,
{
    if on {
        show_property(rows, label, String::from_str(value));
    }
    assert(shown(rows@) =~= shown(old(rows)@) + lens(on, property(label@, value@)));
}

fn switch_text(on: bool) -> (text: &'static str)
    ensures
        text@ == switch(on),
{
    if on {
        "on"
    } else {
        "off"
    }
}

/// A gain with its sign.
pub fn format_gain(gain: i32) -> (text: String)
    ensures
        text@ == gain_text(gain as int),
{
    let mut text = String::new();
    let size: u64 = if gain < 0 {
        text.append("-");
        (-(gain as i64)) as u64
    } else {
        text.append("+");
        gain as u64
    };
    push_fixed(&mut text, size, 1_000, 1, Precision::Single);
    text.append(" dB");
    assert(text@ =~= gain_text(gain as int));
    text
}

impl ClipPath {
    /// Its numbers can be counted: the end of the file's part, and the stages.
    pub open spec fn countable(self) -> bool {
        &&& self.content matches ClipContent::Audio { details: Some(details), .. }
            ==> details.source_start + details.source_duration <= u64::MAX
        &&& self.effects@.len() + self.track_effects@.len() + self.output_effects@.len() + 5
            <= usize::MAX
    }

    fn show_source(&self, rows: &mut Vec<SignalRow>)
        ensures
            shown(final(rows)@) == shown(old(rows)@) + source_rows(*self),
    {
        match &self.content {
            ClipContent::Audio { .. } => show_node(
                rows,
                1,
                "AUDIO ASSET",
                self.clip_name.as_str(),
                Tone::Audio,
                true,
            ),
            ClipContent::Event => show_node(
                rows,
                1,
                "EVENT DATA",
                self.clip_name.as_str(),
                Tone::Event,
                true,
            ),
            ClipContent::Composition { .. } => show_node(
                rows,
                1,
                "CHILD OUTPUT",
                self.clip_name.as_str(),
                Tone::Nested,
                true,
            ),
        }
        show_lens(rows, self.structure_lens, "ID", self.clip_id.as_str());
        let mut path = String::from_str("compositions/");
        path.append(self.composition_id.as_str());
        path.append("/tracks/");
        path.append(self.track_id.as_str());
        path.append(".json#/clips/");
        path.append(self.clip_id.as_str());
        assert(path@ =~= json_path(*self));
        show_lens(rows, self.structure_lens, "JSON", path.as_str());
        show(rows, SignalRow::Connector);
        assert(shown(rows@) =~= shown(old(rows)@) + source_rows(*self));
    }

    fn show_content(&self, rows: &mut Vec<SignalRow>)
        requires
            self.countable(),
        ensures
            shown(final(rows)@) == shown(old(rows)@) + content_rows(*self),
    {
        match &self.content {
            ClipContent::Audio { details, asset_id, source_tempo, sync_label } => {
                show_node(
                    rows,
                    2,
                    "PLAYBACK TRANSFORMS",
                    "Source range → Reverse → Sync → Fades",
                    Tone::Highlight,
                    true,
                );
                if let Some(details) = details {
                    let mut range = String::new();
                    push_fixed(&mut range, details.source_start, 1_000_000_000, 2, Precision::Double);
                    range.append("s → ");
                    push_fixed(
                        &mut range,
                        details.source_start + details.source_duration,
                        1_000_000_000,
                        2,
                        Precision::Double,
                    );
                    range.append("s");
                    assert(range@ =~= range_text(*details));
                    show_property(rows, "Source range", range);
                    show_property(rows, "Reverse", String::from_str(switch_text(details.reverse)));
                    let mut fades = String::from_str("in ");
                    fades.append(switch_text(details.fade_in));
                    fades.append(" · out ");
                    fades.append(switch_text(details.fade_out));
                    assert(fades@ =~= fades_text(*details));
                    show_property(rows, "Fades", fades);
                }
                if let Some(id) = asset_id {
                    show_property(rows, "Asset", String::from_str(id.as_str()));
                }
                if let Some(tempo) = source_tempo {
                    let mut text = String::new();
                    push_fixed(&mut text, *tempo as u64, 1_000, 0, Precision::Single);
                    text.append(" → ");
                    push_fixed(&mut text, self.project_tempo as u64, 1_000, 0, Precision::Single);
                    text.append(" ");
                    text.append(sync_label.as_str());
                    assert(text@ =~= sync_text(*tempo, self.project_tempo, sync_label@));
                    show_property(rows, "Tempo", text);
                }
            },
            ClipContent::Event => {
                show_node(rows, 2, "INSTRUMENT", "Slice Sampler", Tone::Event, true);
                show(rows, SignalRow::Button(ClipButton::OpenSampler));
            },
            ClipContent::Composition { child, render } => {
                show_node(
                    rows,
                    2,
                    "PARENT PLACEMENT",
                    "Mute → placement processor stack",
                    Tone::Nested,
                    true,
                );
                show_property(rows, "Child", String::from_str(child.as_str()));
                let state: &'static str = match render {
                    RenderState::Fresh => "current",
                    RenderState::Stale => "stale · last render playing",
                    RenderState::Rendering(_) => "rendering in background",
                };
                show_property(rows, "Render", String::from_str(state));
                show(
                    rows,
                    SignalRow::Remark("Child internals are edited inside the composition."),
                );
                show(rows, SignalRow::Button(ClipButton::OpenComposition));
            },
        }
        assert(shown(rows@) =~= shown(old(rows)@) + content_rows(*self));
    }

    fn show_stack(&self, rows: &mut Vec<SignalRow>)
        ensures
            shown(final(rows)@) == shown(old(rows)@) + stack_rows(*self),
    {
        let nested = match &self.content {
            ClipContent::Composition { .. } => true,
            _ => false,
        };
        if !nested {
            show_property(rows, "Clip gain", format_gain(self.gain));
        }
        show(rows, SignalRow::Connector);
        if nested {
            show(rows, SignalRow::Heading("PLACEMENT EFFECTS"));
        } else {
            show(rows, SignalRow::Heading("CLIP EFFECTS"));
        }
        if self.has_clip_stack {
            show(rows, SignalRow::Chooser(Scope::Clip));
        }
        assert(shown(rows@) =~= shown(old(rows)@) + stack_rows(*self));
    }

    fn show_clip_effects(&self, rows: &mut Vec<SignalRow>)
        requires
            self.countable(),
        ensures
            shown(final(rows)@) == shown(old(rows)@) + clip_effects_rows(
                *self,
                self.effects@.len(),
            ),
    {
        let mut index: usize = 0;
        assert(shown(rows@) =~= shown(old(rows)@) + clip_effects_rows(*self, 0));
        while index < self.effects.len()
            invariant
                self.countable(),
                index <= self.effects.len(),
                shown(rows@) == shown(old(rows)@) + clip_effects_rows(*self, index as nat),
            decreases self.effects.len() - index,
        {
            let ghost before = shown(rows@);
            let effect = &self.effects[index];
            show_node(
                rows,
                index + 3,
                effect.kind.as_str(),
                effect.name.as_str(),
                Tone::Highlight,
                effect.enabled,
            );
            let editing = match self.selection {
                Selection::Effect { track, clip, effect } => track == self.track && clip
                    == self.clip && effect == index,
                _ => false,
            };
            show(
                rows,
                SignalRow::Controls {
                    scope: Scope::Clip,
                    index,
                    enabled: effect.enabled,
                    up: index > 0,
                    down: index + 1 < self.effects.len(),
                    editing,
                },
            );
            show_lens(rows, self.structure_lens, "Processor ID", effect.id.as_str());
            if index + 1 < self.effects.len() {
                show(rows, SignalRow::Connector);
            }
            assert(shown(rows@) =~= before + clip_effect_rows(*self, index as int));
            index += 1;
            assert(shown(rows@) =~= shown(old(rows)@) + clip_effects_rows(*self, index as nat));
        }
    }

    fn show_track(&self, rows: &mut Vec<SignalRow>)
        requires
            self.countable(),
        ensures
            shown(final(rows)@) == shown(old(rows)@) + track_rows(*self) + track_effects_rows(
                *self,
                self.track_effects@.len(),
            ),
    {
        let count: usize = self.effects.len();
        let track_count: usize = self.track_effects.len();
        show(rows, SignalRow::Connector);
        show_node(
            rows,
            count + 3,
            "TRACK MIX + STACK",
            self.track_name.as_str(),
            Tone::Highlight,
            true,
        );
        show_property(rows, "Order", String::from_str("clip sum → track processors"));
        if self.has_track_stack {
            show(rows, SignalRow::Chooser(Scope::Track));
        }
        let ghost start = shown(rows@);
        assert(start =~= shown(old(rows)@) + track_rows(*self));
        let mut index: usize = 0;
        assert(start =~= start + track_effects_rows(*self, 0));
        while index < track_count
            invariant
                self.countable(),
                count == self.effects@.len(),
                track_count == self.track_effects@.len(),
                index <= track_count,
                shown(rows@) == start + track_effects_rows(*self, index as nat),
            decreases track_count - index,
        {
            let ghost before = shown(rows@);
            let effect = &self.track_effects[index];
            show(rows, SignalRow::Connector);
            show_node(
                rows,
                count + 4 + index,
                "TRACK EFFECT",
                effect.name.as_str(),
                Tone::Highlight,
                effect.enabled,
            );
            if self.has_track_stack {
                show(
                    rows,
                    SignalRow::Controls {
                        scope: Scope::Track,
                        index,
                        enabled: effect.enabled,
                        up: true,
                        down: true,
                        editing: false,
                    },
                );
            }
            show_lens(rows, self.structure_lens, "Processor ID", effect.id.as_str());
            assert(shown(rows@) =~= before + track_effect_rows(*self, index as int));
            index += 1;
            assert(shown(rows@) =~= start + track_effects_rows(*self, index as nat));
        }
    }

    fn show_output(&self, rows: &mut Vec<SignalRow>)
        requires
            self.countable(),
        ensures
            shown(final(rows)@) == shown(old(rows)@) + output_rows(*self) + output_effects_rows(
                *self,
                self.output_effects@.len(),
            ),
    {
        let count: usize = self.effects.len();
        let track_count: usize = self.track_effects.len();
        let output_count: usize = self.output_effects.len();
        show(rows, SignalRow::Connector);
        show_node(
            rows,
            count + track_count + 4,
            "COMPOSITION OUTPUT",
            self.composition_name.as_str(),
            Tone::Nested,
            true,
        );
        show_property(rows, "Order", String::from_str("track sum → output stack"));
        show_lens(rows, self.structure_lens, "Path", self.composition_path.as_str());
        show(rows, SignalRow::Chooser(Scope::Output));
        let ghost start = shown(rows@);
        assert(start =~= shown(old(rows)@) + output_rows(*self));
        let mut index: usize = 0;
        assert(start =~= start + output_effects_rows(*self, 0));
        while index < output_count
            invariant
                self.countable(),
                count == self.effects@.len(),
                track_count == self.track_effects@.len(),
                output_count == self.output_effects@.len(),
                index <= output_count,
                shown(rows@) == start + output_effects_rows(*self, index as nat),
            decreases output_count - index,
        {
            let ghost before = shown(rows@);
            let effect = &self.output_effects[index];
            show(rows, SignalRow::Connector);
            show_node(
                rows,
                count + track_count + 5 + index,
                "OUTPUT EFFECT",
                effect.name.as_str(),
                Tone::Nested,
                effect.enabled,
            );
            show(
                rows,
                SignalRow::Controls {
                    scope: Scope::Output,
                    index,
                    enabled: effect.enabled,
                    up: true,
                    down: true,
                    editing: false,
                },
            );
            show_lens(rows, self.structure_lens, "Processor ID", effect.id.as_str());
            assert(shown(rows@) =~= before + output_effect_rows(*self, index as int));
            index += 1;
            assert(shown(rows@) =~= start + output_effects_rows(*self, index as nat));
        }
    }

    /// The rows of the whole path.
    pub fn clip_inspector(&self) -> (rows: Vec<SignalRow>)
        requires
            self.countable(),
        ensures
            shown(rows@) == clip_rows(*self),
    {
        let mut rows: Vec<SignalRow> = Vec::new();
        assert(shown(rows@) =~= Seq::empty());
        self.show_source(&mut rows);
        self.show_content(&mut rows);
        self.show_stack(&mut rows);
        self.show_clip_effects(&mut rows);
        self.show_track(&mut rows);
        self.show_output(&mut rows);
        assert(shown(rows@) =~= clip_rows(*self));
        rows
    }
}

/// What the user does with the rows.
#[derive(Clone, Copy, Debug)]
pub enum SignalEvent {
    Button(ClipButton),
    Choose { scope: Scope, processor: usize },
    Select { scope: Scope, index: usize },
    Toggle { scope: Scope, index: usize },
    Up { scope: Scope, index: usize },
    Down { scope: Scope, index: usize },
    Remove { scope: Scope, index: usize },
}

/// What is to be done.
#[derive(Clone, Copy, Debug, PartialEq, Eq, Structural)]
pub enum SignalAction {
    Apply(Intent),
    InsertProcessor { scope: Scope, processor: usize },
    SelectProcessor { scope: Scope, index: usize },
    ToggleProcessor { scope: Scope, index: usize },
    MoveProcessor { scope: Scope, index: usize, delta: i8 },
    RemoveProcessor { scope: Scope, index: usize },
}

/// How many processors a scope has.
pub open spec fn effect_count(path: ClipPath, scope: Scope) -> nat {
    match scope {
        Scope::Clip => path.effects@.len(),
        Scope::Track => path.track_effects@.len(),
        Scope::Output => path.output_effects@.len(),
    }
}

/// Whether a scope can be given processors.
pub open spec fn has_stack(path: ClipPath, scope: Scope) -> bool {
    match scope {
        Scope::Clip => path.has_clip_stack,
        Scope::Track => path.has_track_stack,
        Scope::Output => true,
    }
}

/// What an event asks for. The buttons that are not there ask for nothing.
pub open spec fn signal_action(path: ClipPath, event: SignalEvent) -> Option<SignalAction> {
    match event {
        SignalEvent::Button(ClipButton::OpenSampler) => if path.content is Event {
            Some(
                SignalAction::Apply(Intent::Select(Selection::Sampler { track: path.track })),
            )
        } else {
            None
        },
        SignalEvent::Button(ClipButton::OpenComposition) => if path.content is Composition {
            Some(
                SignalAction::Apply(Intent::EnterChild { track: path.track, clip: path.clip }),
            )
        } else {
            None
        },
        SignalEvent::Choose { scope, processor } => if has_stack(path, scope) {
            Some(SignalAction::InsertProcessor { scope, processor })
        } else {
            None
        },
        SignalEvent::Select { scope, index } => if index >= effect_count(path, scope) {
            None
        } else if scope is Clip {
            Some(
                SignalAction::Apply(
                    Intent::Select(
                        Selection::Effect { track: path.track, clip: path.clip, effect: index },
                    ),
                ),
            )
        } else if has_stack(path, scope) {
            Some(SignalAction::SelectProcessor { scope, index })
        } else {
            None
        },
        SignalEvent::Toggle { scope, index } => if index >= effect_count(path, scope) {
            None
        } else if scope is Clip {
            Some(
                SignalAction::Apply(
                    Intent::ToggleEffect { track: path.track, clip: path.clip, effect: index },
                ),
            )
        } else if has_stack(path, scope) {
            Some(SignalAction::ToggleProcessor { scope, index })
        } else {
            None
        },
        SignalEvent::Up { scope, index } => if index >= effect_count(path, scope) {
            None
        } else if scope is Clip {
            if index > 0 {
                Some(
                    SignalAction::Apply(
                        Intent::MoveEffect {
                            track: path.track,
                            clip: path.clip,
                            effect: index,
                            delta: -1i8,
                        },
                    ),
                )
            } else {
                None
            }
        } else if has_stack(path, scope) {
            Some(SignalAction::MoveProcessor { scope, index, delta: -1i8 })
        } else {
            None
        },
        SignalEvent::Down { scope, index } => if index >= effect_count(path, scope) {
            None
        } else if scope is Clip {
            if index + 1 < effect_count(path, scope) {
                Some(
                    SignalAction::Apply(
                        Intent::MoveEffect {
                            track: path.track,
                            clip: path.clip,
                            effect: index,
                            delta: 1,
                        },
                    ),
                )
            } else {
                None
            }
        } else if has_stack(path, scope) {
            Some(SignalAction::MoveProcessor { scope, index, delta: 1 })
        } else {
            None
        },
        SignalEvent::Remove { scope, index } => if index < effect_count(path, scope) && has_stack(
            path,
            scope,
        ) {
            Some(SignalAction::RemoveProcessor { scope, index })
        } else {
            None
        },
    }
}

impl ClipPath {
    fn count_in(&self, scope: Scope) -> (count: usize)
        ensures
            count == effect_count(*self, scope),
    {
        match scope {
            Scope::Clip => self.effects.len(),
            Scope::Track => self.track_effects.len(),
            Scope::Output => self.output_effects.len(),
        }
    }

    fn offers_stack(&self, scope: Scope) -> (yes: bool)
        ensures
            yes == has_stack(*self, scope),
    {
        match scope {
            Scope::Clip => self.has_clip_stack,
            Scope::Track => self.has_track_stack,
            Scope::Output => true,
        }
    }

    /// What an event asks for.
    pub fn act(&self, event: SignalEvent) -> (action: Option<SignalAction>)
        ensures
            action == signal_action(*self, event),
    {
        let (track, clip) = (self.track, self.clip);
        match event {
            SignalEvent::Button(ClipButton::OpenSampler) => match &self.content {
                ClipContent::Event => Some(
                    SignalAction::Apply(Intent::Select(Selection::Sampler { track })),
                ),
                _ => None,
            },
            SignalEvent::Button(ClipButton::OpenComposition) => match &self.content {
                ClipContent::Composition { .. } => Some(
                    SignalAction::Apply(Intent::EnterChild { track, clip }),
                ),
                _ => None,
            },
            SignalEvent::Choose { scope, processor } => if self.offers_stack(scope) {
                Some(SignalAction::InsertProcessor { scope, processor })
            } else {
                None
            },
            SignalEvent::Select { scope, index } => {
                if index >= self.count_in(scope) {
                    None
                } else if scope == Scope::Clip {
                    Some(
                        SignalAction::Apply(
                            Intent::Select(Selection::Effect { track, clip, effect: index }),
                        ),
                    )
                } else if self.offers_stack(scope) {
                    Some(SignalAction::SelectProcessor { scope, index })
                } else {
                    None
                }
            },
            SignalEvent::Toggle { scope, index } => {
                if index >= self.count_in(scope) {
                    None
                } else if scope == Scope::Clip {
                    Some(SignalAction::Apply(Intent::ToggleEffect { track, clip, effect: index }))
                } else if self.offers_stack(scope) {
                    Some(SignalAction::ToggleProcessor { scope, index })
                } else {
                    None
                }
            },
            SignalEvent::Up { scope, index } => {
                if index >= self.count_in(scope) {
                    None
                } else if scope == Scope::Clip {
                    if index > 0 {
                        Some(
                            SignalAction::Apply(
                                Intent::MoveEffect { track, clip, effect: index, delta: -1 },
                            ),
                        )
                    } else {
                        None
                    }
                } else if self.offers_stack(scope) {
                    Some(SignalAction::MoveProcessor { scope, index, delta: -1 })
                } else {
                    None
                }
            },
            SignalEvent::Down { scope, index } => {
                let count: usize = self.count_in(scope);
                if index >= count {
                    None
                } else if scope == Scope::Clip {
                    if index < count - 1 {
                        Some(
                            SignalAction::Apply(
                                Intent::MoveEffect { track, clip, effect: index, delta: 1 },
                            ),
                        )
                    } else {
                        None
                    }
                } else if self.offers_stack(scope) {
                    Some(SignalAction::MoveProcessor { scope, index, delta: 1 })
                } else {
                    None
                }
            },
            SignalEvent::Remove { scope, index } => {
                if index < self.count_in(scope) && self.offers_stack(scope) {
                    Some(SignalAction::RemoveProcessor { scope, index })
                } else {
                    None
                }
            },
        }
    }
}

/// The orders of the stages that rows show, in turn.
pub open spec fn orders(rows: Seq<RowModel>) -> Seq<int>
    decreases rows.len(),
{
    if rows.len() == 0 {
        Seq::empty()
    } else {
        match rows.last() {
            RowModel::Node { order, .. } => orders(rows.drop_last()).push(order),
            _ => orders(rows.drop_last()),
        }
    }
}

/// The numbers from one up to a count.
pub open spec fn counting(count: nat) -> Seq<int> {
    Seq::new(count, |i: int| i + 1)
}

proof fn lemma_orders_join(first: Seq<RowModel>, second: Seq<RowModel>)
    ensures
        orders(first + second) == orders(first) + orders(second),
    decreases second.len(),
{
    if second.len() == 0 {
        assert(first + second =~= first);
        assert(orders(first) + orders(second) =~= orders(first));
    } else {
        lemma_orders_join(first, second.drop_last());
        assert((first + second).drop_last() =~= first + second.drop_last());
        assert((first + second).last() == second.last());
        assert(orders(first + second) =~= orders(first) + orders(second));
    }
}

proof fn lemma_orders_one(rows: Seq<RowModel>, place: int, order: int)
    requires
        0 <= place < rows.len(),
        rows[place] matches RowModel::Node { order: number, .. } && number == order,
        forall|i: int| 0 <= i < rows.len() && i != place ==> !(#[trigger] rows[i] is Node),
    ensures
        orders(rows) == seq![order],
    decreases rows.len(),
{
    if place == rows.len() - 1 {
        lemma_orders_none(rows.drop_last());
        assert(orders(rows) =~= seq![order]);
    } else {
        lemma_orders_one(rows.drop_last(), place, order);
        assert(!(rows[rows.len() - 1] is Node));
    }
}

proof fn lemma_orders_none(rows: Seq<RowModel>)
    requires
        forall|i: int| 0 <= i < rows.len() ==> !(#[trigger] rows[i] is Node),
    ensures
        orders(rows) == Seq::<int>::empty(),
    decreases rows.len(),
{
    if rows.len() > 0 {
        assert(!(rows[rows.len() - 1] is Node));
        lemma_orders_none(rows.drop_last());
    }
}

proof fn lemma_clip_orders(path: ClipPath, count: nat)
    requires
        count <= path.effects@.len(),
    ensures
        orders(clip_effects_rows(path, count)) == Seq::new(count, |i: int| i + 3),
    decreases count,
{
    if count > 0 {
        let last = count - 1;
        lemma_clip_orders(path, last as nat);
        lemma_orders_join(clip_effects_rows(path, last as nat), clip_effect_rows(path, last));
        lemma_orders_one(clip_effect_rows(path, last), 0, last + 3);
    }
    assert(orders(clip_effects_rows(path, count)) =~= Seq::new(count, |i: int| i + 3));
}

proof fn lemma_track_orders(path: ClipPath, count: nat)
    requires
        count <= path.track_effects@.len(),
    ensures
        orders(track_effects_rows(path, count)) == Seq::new(
            count,
            |i: int| path.effects@.len() + 4 + i,
        ),
    decreases count,
{
    if count > 0 {
        let last = count - 1;
        lemma_track_orders(path, last as nat);
        lemma_orders_join(track_effects_rows(path, last as nat), track_effect_rows(path, last));
        lemma_orders_one(track_effect_rows(path, last), 1, path.effects@.len() + 4 + last);
    }
    assert(orders(track_effects_rows(path, count)) =~= Seq::new(
        count,
        |i: int| path.effects@.len() + 4 + i,
    ));
}

proof fn lemma_output_orders(path: ClipPath, count: nat)
    requires
        count <= path.output_effects@.len(),
    ensures
        orders(output_effects_rows(path, count)) == Seq::new(
            count,
            |i: int| path.effects@.len() + path.track_effects@.len() + 5 + i,
        ),
    decreases count,
{
    if count > 0 {
        let last = count - 1;
        lemma_output_orders(path, last as nat);
        lemma_orders_join(output_effects_rows(path, last as nat), output_effect_rows(path, last));
        lemma_orders_one(
            output_effect_rows(path, last),
            1,
            path.effects@.len() + path.track_effects@.len() + 5 + last,
        );
    }
    assert(orders(output_effects_rows(path, count)) =~= Seq::new(
        count,
        |i: int| path.effects@.len() + path.track_effects@.len() + 5 + i,
    ));
}

proof fn lemma_single_orders(path: ClipPath)
    ensures
        orders(source_rows(path)) == seq![1int],
        orders(content_rows(path)) == seq![2int],
        orders(stack_rows(path)) == Seq::<int>::empty(),
        orders(track_rows(path)) == seq![path.effects@.len() as int + 3],
        orders(output_rows(path)) == seq![
            path.effects@.len() as int + path.track_effects@.len() + 4,
        ],
{
    let clip = path.effects@.len() as int;
    lemma_orders_one(source_rows(path), 0, 1);
    lemma_orders_one(content_rows(path), 0, 2);
    lemma_orders_none(stack_rows(path));
    lemma_orders_one(track_rows(path), 1, clip + 3);
    lemma_orders_one(output_rows(path), 1, clip + path.track_effects@.len() + 4);
}

proof fn lemma_counted_on(first: Seq<RowModel>, second: Seq<RowModel>, counted: nat, more: nat)
    requires
        orders(first) == counting(counted),
        orders(second) == Seq::new(more, |i: int| counted + 1 + i),
    ensures
        orders(first + second) == counting(counted + more),
{
    lemma_orders_join(first, second);
    assert(orders(first + second) =~= counting(counted + more));
}

/// The stages of a path are numbered one after the other, from the source to the last
/// processor of the output.
pub proof fn stages_are_numbered_in_turn(path: ClipPath)
    ensures
        orders(clip_rows(path)) == counting(
            path.effects@.len() + path.track_effects@.len() + path.output_effects@.len() + 4,
        ),
{
    let clip = path.effects@.len();
    let track = path.track_effects@.len();
    let output = path.output_effects@.len();
    let a = source_rows(path);
    let b = content_rows(path);
    let c = stack_rows(path);
    let d = clip_effects_rows(path, clip);
    let e = track_rows(path);
    let f = track_effects_rows(path, track);
    let g = output_rows(path);
    let h = output_effects_rows(path, output);
    lemma_single_orders(path);
    lemma_clip_orders(path, clip);
    lemma_track_orders(path, track);
    lemma_output_orders(path, output);
    assert(orders(a) =~= counting(1));
    assert(orders(b) =~= Seq::new(1, |i: int| 1nat + 1 + i));
    lemma_counted_on(a, b, 1, 1);
    assert(orders(c) =~= Seq::new(0, |i: int| 2nat + 1 + i));
    lemma_counted_on(a + b, c, 2, 0);
    assert(orders(d) =~= Seq::new(clip, |i: int| 2nat + 1 + i));
    lemma_counted_on(a + b + c, d, 2, clip);
    assert(orders(e) =~= Seq::new(1, |i: int| (2 + clip) + 1 + i));
    lemma_counted_on(a + b + c + d, e, 2 + clip, 1);
    assert(orders(f) =~= Seq::new(track, |i: int| (3 + clip) + 1 + i));
    lemma_counted_on(a + b + c + d + e, f, 3 + clip, track);
    assert(orders(g) =~= Seq::new(1, |i: int| (3 + clip + track) + 1 + i));
    lemma_counted_on(a + b + c + d + e + f, g, 3 + clip + track, 1);
    assert(orders(h) =~= Seq::new(output, |i: int| (4 + clip + track) + 1 + i));
    lemma_counted_on(a + b + c + d + e + f + g, h, 4 + clip + track, output);
}

proof fn lemma_effect_is_shown(path: ClipPath, count: nat, index: int)
    requires
        0 <= index < count,
    ensures
        forall|row: RowModel| #[trigger]
            clip_effect_rows(path, index).contains(row) ==> clip_effects_rows(path, count).contains(
                row,
            ),
        forall|row: RowModel| #[trigger]
            track_effect_rows(path, index).contains(row) ==> track_effects_rows(
                path,
                count,
            ).contains(row),
        forall|row: RowModel| #[trigger]
            output_effect_rows(path, index).contains(row) ==> output_effects_rows(
                path,
                count,
            ).contains(row),
    decreases count,
{
    let less = (count - 1) as nat;
    if index < less {
        lemma_effect_is_shown(path, less, index);
    }
    assert forall|row: RowModel| #[trigger]
        clip_effect_rows(path, index).contains(row) implies clip_effects_rows(
        path,
        count,
    ).contains(row) by {
        lemma_part_of(clip_effects_rows(path, less), clip_effect_rows(path, count - 1), row);
    }
    assert forall|row: RowModel| #[trigger]
        track_effect_rows(path, index).contains(row) implies track_effects_rows(
        path,
        count,
    ).contains(row) by {
        lemma_part_of(track_effects_rows(path, less), track_effect_rows(path, count - 1), row);
    }
    assert forall|row: RowModel| #[trigger]
        output_effect_rows(path, index).contains(row) implies output_effects_rows(
        path,
        count,
    ).contains(row) by {
        lemma_part_of(output_effects_rows(path, less), output_effect_rows(path, count - 1), row);
    }
}

proof fn lemma_part_of(first: Seq<RowModel>, second: Seq<RowModel>, row: RowModel)
    ensures
        first.contains(row) || second.contains(row) ==> (first + second).contains(row),
{
    let all = first + second;
    if first.contains(row) {
        let i = choose|i: int| 0 <= i < first.len() && first[i] == row;
        assert(all[i] == row);
    } else if second.contains(row) {
        let i = choose|i: int| 0 <= i < second.len() && second[i] == row;
        assert(all[first.len() + i] == row);
    }
}

/// Every processor of the clip is shown by its kind and its name, with controls of its own: the
/// first cannot go up, the last not down, and the one that is selected is the one that is edited.
pub proof fn clip_processors_are_shown(path: ClipPath, index: int)
    requires
        0 <= index < path.effects@.len(),
        path.effects@.len() <= usize::MAX,
    ensures
        ({
            let effect = path.effects@[index];
            &&& clip_rows(path).contains(
                RowModel::Node {
                    order: index + 3,
                    kind: effect.kind@,
                    name: effect.name@,
                    tone: Tone::Highlight,
                    enabled: effect.enabled,
                },
            )
            &&& clip_rows(path).contains(
                RowModel::Controls {
                    scope: Scope::Clip,
                    index,
                    enabled: effect.enabled,
                    up: index != 0,
                    down: index != path.effects@.len() - 1,
                    editing: path.selection == (Selection::Effect {
                        track: path.track,
                        clip: path.clip,
                        effect: index as usize,
                    }),
                },
            )
        }),
{
    let rows = clip_effect_rows(path, index);
    lemma_effect_is_shown(path, path.effects@.len(), index);
    lemma_clip_rows_hold(path, rows[0]);
    lemma_clip_rows_hold(path, rows[1]);
    assert(rows.contains(rows[0]) && rows.contains(rows[1]));
}

/// Every processor of the track and of the output is shown by its name.
pub proof fn other_processors_are_shown(path: ClipPath, track: int, output: int)
    requires
        0 <= track < path.track_effects@.len(),
        0 <= output < path.output_effects@.len(),
    ensures
        clip_rows(path).contains(
            RowModel::Node {
                order: path.effects@.len() + 4 + track,
                kind: "TRACK EFFECT"@,
                name: path.track_effects@[track].name@,
                tone: Tone::Highlight,
                enabled: path.track_effects@[track].enabled,
            },
        ),
        clip_rows(path).contains(
            RowModel::Node {
                order: path.effects@.len() + path.track_effects@.len() + 5 + output,
                kind: "OUTPUT EFFECT"@,
                name: path.output_effects@[output].name@,
                tone: Tone::Nested,
                enabled: path.output_effects@[output].enabled,
            },
        ),
{
    let first = track_effect_rows(path, track);
    let second = output_effect_rows(path, output);
    lemma_effect_is_shown(path, path.track_effects@.len(), track);
    lemma_effect_is_shown(path, path.output_effects@.len(), output);
    assert(first.contains(first[1]));
    assert(second.contains(second[1]));
    lemma_clip_rows_hold(path, first[1]);
    lemma_clip_rows_hold(path, second[1]);
}

proof fn lemma_clip_rows_hold(path: ClipPath, row: RowModel)
    ensures
        source_rows(path).contains(row) || content_rows(path).contains(row) || stack_rows(
            path,
        ).contains(row) || clip_effects_rows(path, path.effects@.len()).contains(row)
            || track_rows(path).contains(row) || track_effects_rows(
            path,
            path.track_effects@.len(),
        ).contains(row) || output_rows(path).contains(row) || output_effects_rows(
            path,
            path.output_effects@.len(),
        ).contains(row) ==> clip_rows(path).contains(row),
{
    let a = source_rows(path);
    let b = content_rows(path);
    let c = stack_rows(path);
    let d = clip_effects_rows(path, path.effects@.len());
    let e = track_rows(path);
    let f = track_effects_rows(path, path.track_effects@.len());
    let g = output_rows(path);
    let h = output_effects_rows(path, path.output_effects@.len());
    lemma_part_of(a, b, row);
    lemma_part_of(a + b, c, row);
    lemma_part_of(a + b + c, d, row);
    lemma_part_of(a + b + c + d, e, row);
    lemma_part_of(a + b + c + d + e, f, row);
    lemma_part_of(a + b + c + d + e + f, g, row);
    lemma_part_of(a + b + c + d + e + f + g, h, row);
}

/// What a clip plays is shown: the child of a nested one with a way into it, the sampler of one
/// with notes, and the part of the recording from its start to its end.
pub proof fn contents_are_shown(path: ClipPath)
    ensures
        clip_rows(path)[0] matches RowModel::Node { order, name, .. } && order == 1 && name
            == path.clip_name@,
        path.content matches ClipContent::Composition { child, .. } ==> clip_rows(path).contains(
            RowModel::Property { label: "Child"@, value: child@ },
        ) && clip_rows(path).contains(RowModel::Button(ClipButton::OpenComposition)),
        path.content is Event ==> clip_rows(path).contains(
            RowModel::Button(ClipButton::OpenSampler),
        ),
        path.content matches ClipContent::Audio { details: Some(details), .. } ==> clip_rows(
            path,
        ).contains(
            RowModel::Property {
                label: "Source range"@,
                value: fixed(details.source_start as nat, 1_000_000_000, 2, Precision::Double)
                    + "s → "@ + fixed(
                    (details.source_start + details.source_duration) as nat,
                    1_000_000_000,
                    2,
                    Precision::Double,
                ) + "s"@,
            },
        ),
        !(path.content is Composition) ==> clip_rows(path).contains(
            RowModel::Property { label: "Clip gain"@, value: gain_text(path.gain as int) },
        ),
{
    let rows = content_rows(path);
    let stack = stack_rows(path);
    match path.content {
        ClipContent::Composition { .. } => {
            assert(rows[1] is Property);
            lemma_clip_rows_hold(path, rows[1]);
            assert(rows[4] is Button);
            lemma_clip_rows_hold(path, rows[4]);
        },
        ClipContent::Event => {
            assert(rows[1] is Button);
            lemma_clip_rows_hold(path, rows[1]);
        },
        ClipContent::Audio { details, .. } => {
            if details is Some {
                assert(rows[1] == property("Source range"@, range_text(details->0)));
                lemma_clip_rows_hold(path, rows[1]);
            }
        },
    }
    if !(path.content is Composition) {
        assert(stack[0] == property("Clip gain"@, gain_text(path.gain as int)));
        lemma_clip_rows_hold(path, stack[0]);
    }
    assert(clip_rows(path)[0] == source_rows(path)[0]);
}

/// The controls of a processor act on it, in its own stack: those of a clip through the
/// arrangement, those of a track or the output where there is a stack.
pub proof fn controls_act_on_their_processor(path: ClipPath, scope: Scope, index: usize)
    ensures
        ({
            let count = match scope {
                Scope::Clip => path.effects@.len(),
                Scope::Track => path.track_effects@.len(),
                Scope::Output => path.output_effects@.len(),
            };
            let open = match scope {
                Scope::Clip => path.has_clip_stack,
                Scope::Track => path.has_track_stack,
                Scope::Output => true,
            };
            let (track, clip) = (path.track, path.clip);
            let toggled = signal_action(path, SignalEvent::Toggle { scope, index });
            let chosen = signal_action(path, SignalEvent::Select { scope, index });
            let up = signal_action(path, SignalEvent::Up { scope, index });
            let down = signal_action(path, SignalEvent::Down { scope, index });
            let gone = signal_action(path, SignalEvent::Remove { scope, index });
            &&& index >= count ==> toggled is None && chosen is None && up is None && down is None
                && gone is None
            &&& index < count && scope is Clip ==> {
                &&& toggled == Some(
                    SignalAction::Apply(Intent::ToggleEffect { track, clip, effect: index }),
                )
                &&& chosen == Some(
                    SignalAction::Apply(
                        Intent::Select(Selection::Effect { track, clip, effect: index }),
                    ),
                )
                &&& index > 0 ==> up == Some(
                    SignalAction::Apply(
                        Intent::MoveEffect { track, clip, effect: index, delta: -1i8 },
                    ),
                )
                &&& index + 1 < count ==> down == Some(
                    SignalAction::Apply(
                        Intent::MoveEffect { track, clip, effect: index, delta: 1 },
                    ),
                )
                &&& index == 0 ==> up is None
                &&& index + 1 == count ==> down is None
            }
            &&& index < count && !(scope is Clip) && open ==> {
                &&& toggled == Some(SignalAction::ToggleProcessor { scope, index })
                &&& chosen == Some(SignalAction::SelectProcessor { scope, index })
                &&& up == Some(SignalAction::MoveProcessor { scope, index, delta: -1i8 })
                &&& down == Some(SignalAction::MoveProcessor { scope, index, delta: 1 })
            }
            &&& index < count && open ==> gone == Some(
                SignalAction::RemoveProcessor { scope, index },
            )
            &&& !open ==> gone is None
            &&& signal_action(path, SignalEvent::Choose { scope, processor: index }) == if open {
                Some(SignalAction::InsertProcessor { scope, processor: index })
            } else {
                None
            }
        }),
{
}

/// The buttons of a clip open its sampler or its composition, and only where it has one.
pub proof fn clip_buttons_open_what_the_clip_plays(path: ClipPath)
    ensures
        ({
            let sampler = signal_action(path, SignalEvent::Button(ClipButton::OpenSampler));
            let child = signal_action(path, SignalEvent::Button(ClipButton::OpenComposition));
            &&& path.content is Event ==> sampler == Some(
                SignalAction::Apply(Intent::Select(Selection::Sampler { track: path.track })),
            )
            &&& !(path.content is Event) ==> sampler is None
            &&& path.content is Composition ==> child == Some(
                SignalAction::Apply(Intent::EnterChild { track: path.track, clip: path.clip }),
            )
            &&& !(path.content is Composition) ==> child is None
        }),
{
}

/// The tempo of a recording is shown with that of the project, in whole beats per minute, and
/// with how it follows.
pub proof fn tempos_are_shown_side_by_side(path: ClipPath, source: u32, label: Seq<char>)
    ensures
        path.content matches ClipContent::Audio {
            source_tempo: Some(tempo),
            sync_label,
            ..
        } ==> clip_rows(path).contains(
            RowModel::Property {
                label: "Tempo"@,
                value: fixed(tempo as nat, 1_000, 0, Precision::Single) + " → "@ + fixed(
                    path.project_tempo as nat,
                    1_000,
                    0,
                    Precision::Single,
                ) + " "@ + sync_label@,
            },
        ),
        gain_text(0) == "+"@ + fixed(0, 1_000, 1, Precision::Single) + " dB"@,
        source > 0 ==> gain_text(source as int) == "+"@ + fixed(
            source as nat,
            1_000,
            1,
            Precision::Single,
        ) + " dB"@,
        source > 0 ==> gain_text(-(source as int)) == "-"@ + fixed(
            source as nat,
            1_000,
            1,
            Precision::Single,
        ) + " dB"@,
{
    if let ClipContent::Audio { details, asset_id, source_tempo, sync_label } = path.content {
        if source_tempo is Some {
            let rows = content_rows(path);
            let row = property(
                "Tempo"@,
                sync_text(source_tempo->0, path.project_tempo, sync_label@),
            );
            assert(rows.last() == row);
            assert(rows[rows.len() - 1] == row);
            lemma_clip_rows_hold(path, row);
        }
    }
}

/// Of a recording is shown whether it is reversed and how it fades; with the lens the clip is
/// shown by its id and where it stands in the project.
pub proof fn recordings_are_shown_as_they_play(path: ClipPath)
    ensures
        path.content matches ClipContent::Audio { details: Some(details), .. } ==> {
            let backwards = if details.reverse {
                "on"@
            } else {
                "off"@
            };
            let first = if details.fade_in {
                "on"@
            } else {
                "off"@
            };
            let last = if details.fade_out {
                "on"@
            } else {
                "off"@
            };
            &&& clip_rows(path).contains(
                RowModel::Property { label: "Reverse"@, value: backwards },
            )
            &&& clip_rows(path).contains(
                RowModel::Property {
                    label: "Fades"@,
                    value: "in "@ + first + " · out "@ + last,
                },
            )
        },
        path.structure_lens ==> clip_rows(path)[1] == (RowModel::Property {
            label: "ID"@,
            value: path.clip_id@,
        }) && clip_rows(path)[2] == (RowModel::Property {
            label: "JSON"@,
            value: "compositions/"@ + path.composition_id@ + "/tracks/"@ + path.track_id@
                + ".json#/clips/"@ + path.clip_id@,
        }),
        path.content matches ClipContent::Composition { render, .. } ==> clip_rows(path).contains(
            RowModel::Property {
                label: "Render"@,
                value: match render {
                    RenderState::Fresh => "current"@,
                    RenderState::Stale => "stale · last render playing"@,
                    RenderState::Rendering(_) => "rendering in background"@,
                },
            },
        ),
{
    let rows = content_rows(path);
    match path.content {
        ClipContent::Audio { details, .. } => {
            if details is Some {
                assert(rows[2] == property("Reverse"@, switch(details->0.reverse)));
                assert(rows[3] == property("Fades"@, fades_text(details->0)));
                lemma_clip_rows_hold(path, rows[2]);
                lemma_clip_rows_hold(path, rows[3]);
            }
        },
        ClipContent::Composition { render, .. } => {
            assert(rows[2] == property("Render"@, render_text(render)));
            lemma_clip_rows_hold(path, rows[2]);
        },
        _ => {},
    }
    if path.structure_lens {
        assert(clip_rows(path)[1] == source_rows(path)[1]);
        assert(clip_rows(path)[2] == source_rows(path)[2]);
    }
}

/// A processor of the clip is connected to the one behind it, and the last to none; with the lens
/// its id is shown.
pub proof fn processors_are_connected(path: ClipPath, index: int)
    requires
        0 <= index < path.effects@.len(),
    ensures
        clip_effect_rows(path, index).last() is Connector <==> index != path.effects@.len() - 1,
        path.structure_lens ==> clip_effect_rows(path, index)[2] == (RowModel::Property {
            label: "Processor ID"@,
            value: path.effects@[index].id@,
        }),
        clip_effect_rows(path, index).len() == 2 + (if path.structure_lens {
            1int
        } else {
            0
        }) + (if index != path.effects@.len() - 1 {
            1int
        } else {
            0
        }),
{
}

} // verus!
