//! The graphical equalizer: up to eight bands, each a point that can be dragged.
//!
//! Frequencies are counted in thousandths of a hertz, gains in thousandths of a decibel,
//! widths in thousandths, and distances on the screen in thousandths of a point.
use crate::numbers::{fixed, push_fixed, Precision};
use crate::pages::least;
use crate::signal::{format_gain, gain_text};
use crate::text::{decimal, push_decimal};
use crate::transport::clamped;
use vstd::prelude::*;

verus! {

/// The most bands of an equalizer.
pub const MOST_BANDS: usize = 8;

/// How far a band can be raised or lowered.
pub const GAIN_RANGE: i32 = 24_000;

/// The lowest frequency of a band.
pub const LOWEST_FREQUENCY: u32 = 10_000;

/// The highest frequency of a band, whatever the sample rate.
pub const HIGHEST_FREQUENCY: u32 = 24_000_000;

/// The least width of a band.
pub const LEAST_Q: u32 = 100;

/// The greatest width of a band.
pub const GREATEST_Q: u32 = 30_000;

/// How close to a point the pointer takes hold of it.
pub const NODE_REACH: u64 = 18_000;

/// What a band does.
#[derive(Clone, Copy, Debug, PartialEq, Eq, Structural)]
pub enum EqShape {
    Bell,
    LowShelf,
    HighShelf,
    HighPass,
    LowPass,
    Notch,
}

/// How steep a pass is.
#[derive(Clone, Copy, Debug, PartialEq, Eq, Structural)]
pub enum FilterSlope {
    Db12,
    Db24,
    Db48,
}

/// A band.
#[derive(Clone, Copy, Debug, PartialEq, Eq, Structural)]
pub struct EqBand {
    pub enabled: bool,
    pub shape: EqShape,
    pub frequency: u32,
    pub gain: i32,
    pub q: u32,
    pub slope: FilterSlope,
}

/// The settings of an equalizer.
#[derive(Debug)]
pub struct EqParameters {
    pub bands: Vec<EqBand>,
    pub output_gain: i32,
}

/// What an equalizer is set to.
#[verifier::ext_equal]
pub struct EqModel {
    pub bands: Seq<EqBand>,
    pub output_gain: i32,
}

impl View for EqParameters {
    type V = EqModel;

    open spec fn view(&self) -> EqModel {
        EqModel { bands: self.bands@, output_gain: self.output_gain }
    }
}

/// What the window remembers between two looks at it.
#[derive(Clone, Copy, Debug, PartialEq, Eq, Structural)]
pub struct EqEditorState {
    pub selected: usize,
    /// The band whose point is dragged.
    pub drag_band: Option<usize>,
}

/// Whether a band of this shape can be raised and lowered.
pub open spec fn gains(shape: EqShape) -> bool {
    shape is Bell || shape is LowShelf || shape is HighShelf
}

/// Whether a band of this shape can be raised and lowered.
pub fn has_gain(shape: EqShape) -> (yes: bool)
    ensures
        yes == gains(shape),
{
    match shape {
        EqShape::Bell | EqShape::LowShelf | EqShape::HighShelf => true,
        _ => false,
    }
}

/// Whether a band of this shape has a slope.
pub fn has_slope(shape: EqShape) -> (yes: bool)
    ensures
        yes == (shape is HighPass || shape is LowPass),
{
    match shape {
        EqShape::HighPass | EqShape::LowPass => true,
        _ => false,
    }
}

/// The short name of a shape.
pub open spec fn short_name(shape: EqShape) -> Seq<char> {
    match shape {
        EqShape::Bell => "BELL"@,
        EqShape::LowShelf => "LO"@,
        EqShape::HighShelf => "HI"@,
        EqShape::HighPass => "HP"@,
        EqShape::LowPass => "LP"@,
        EqShape::Notch => "NOTCH"@,
    }
}

/// The short name of a shape.
pub fn shape_short(shape: EqShape) -> (name: &'static str)
    ensures
        name@ == short_name(shape),
{
    match shape {
        EqShape::Bell => "BELL",
        EqShape::LowShelf => "LO",
        EqShape::HighShelf => "HI",
        EqShape::HighPass => "HP",
        EqShape::LowPass => "LP",
        EqShape::Notch => "NOTCH",
    }
}

/// The name of a shape.
pub open spec fn long_name(shape: EqShape) -> Seq<char> {
    match shape {
        EqShape::Bell => "Bell"@,
        EqShape::LowShelf => "Low shelf"@,
        EqShape::HighShelf => "High shelf"@,
        EqShape::HighPass => "High pass"@,
        EqShape::LowPass => "Low pass"@,
        EqShape::Notch => "Notch"@,
    }
}

/// The name of a shape.
pub fn shape_name(shape: EqShape) -> (name: &'static str)
    ensures
        name@ == long_name(shape),
{
    match shape {
        EqShape::Bell => "Bell",
        EqShape::LowShelf => "Low shelf",
        EqShape::HighShelf => "High shelf",
        EqShape::HighPass => "High pass",
        EqShape::LowPass => "Low pass",
        EqShape::Notch => "Notch",
    }
}

/// Decibels to the octave.
pub open spec fn decibels(slope: FilterSlope) -> u32 {
    match slope {
        FilterSlope::Db12 => 12,
        FilterSlope::Db24 => 24,
        FilterSlope::Db48 => 48,
    }
}

/// Decibels to the octave.
pub fn slope(value: FilterSlope) -> (number: u32)
    ensures
        number == decibels(value),
{
    match value {
        FilterSlope::Db12 => 12,
        FilterSlope::Db24 => 24,
        FilterSlope::Db48 => 48,
    }
}

/// A slope in words.
pub fn slope_label(value: FilterSlope) -> (text: String)
    ensures
        text@ == decimal(decibels(value) as nat) + " dB/oct"@,
{
    let mut text = String::new();
    push_decimal(&mut text, slope(value) as u64);
    text.append(" dB/oct");
    assert(text@ =~= decimal(decibels(value) as nat) + " dB/oct"@);
    text
}

/// A frequency, in kilohertz from one on.
pub open spec fn frequency_text(frequency: u32) -> Seq<char> {
    if frequency >= 1_000_000 {
        fixed(frequency as nat, 1_000_000, 1, Precision::Single) + " kHz"@
    } else {
        fixed(frequency as nat, 1_000, 0, Precision::Single) + " Hz"@
    }
}

/// A frequency, in kilohertz from one on.
pub fn frequency_label(frequency: u32) -> (text: String)
    ensures
        text@ == frequency_text(frequency),
{
    let mut text = String::new();
    if frequency >= 1_000_000 {
        push_fixed(&mut text, frequency as u64, 1_000_000, 1, Precision::Single);
        text.append(" kHz");
    } else {
        push_fixed(&mut text, frequency as u64, 1_000, 0, Precision::Single);
        text.append(" Hz");
    }
    assert(text@ =~= frequency_text(frequency));
    text
}

/// What is said of lanes that move the settings while the project plays.
pub fn automation_remark(lanes: u64) -> (text: Option<String>)
    ensures
        text is Some <==> lanes > 0,
        text matches Some(text) ==> text@ == decimal(lanes as nat)
            + " AUTOMATION LANE(S) · curve shows base settings"@,
{
    if lanes == 0 {
        return None;
    }
    let mut text = String::new();
    push_decimal(&mut text, lanes);
    text.append(" AUTOMATION LANE(S) · curve shows base settings");
    assert(text@ =~= decimal(lanes as nat) + " AUTOMATION LANE(S) · curve shows base settings"@);
    Some(text)
}

/// The text of the button of a band.
pub fn band_title(index: u64, band: &EqBand) -> (text: String)
    requires
        index < MOST_BANDS,
    ensures
        text@ == decimal((index + 1) as nat) + "  "@ + short_name(band.shape),
{
    let mut text = String::new();
    push_decimal(&mut text, index + 1);
    text.append("  ");
    text.append(shape_short(band.shape));
    assert(text@ =~= decimal((index + 1) as nat) + "  "@ + short_name(band.shape));
    text
}

/// What is read of a band when the pointer rests on its button.
pub open spec fn band_text(index: nat, band: EqBand) -> Seq<char> {
    "Band "@ + decimal(index + 1) + " · "@ + long_name(band.shape) + " · "@ + frequency_text(
        band.frequency,
    ) + if band.enabled {
        ""@
    } else {
        " · off"@
    }
}

/// What is read of a band when the pointer rests on its button.
pub fn band_hint(index: u64, band: &EqBand) -> (text: String)
    requires
        index < MOST_BANDS,
    ensures
        text@ == band_text(index as nat, *band),
{
    let mut text = String::from_str("Band ");
    push_decimal(&mut text, index + 1);
    text.append(" · ");
    text.append(shape_name(band.shape));
    text.append(" · ");
    text.append(frequency_label(band.frequency).as_str());
    if !band.enabled {
        text.append(" · off");
    }
    proof {
        reveal_strlit("");
    }
    assert(text@ =~= band_text(index as nat, *band));
    text
}

/// What is read of a band when the pointer rests on its point.
pub open spec fn node_text(index: nat, band: EqBand) -> Seq<char> {
    decimal(index + 1) + "  "@ + frequency_text(band.frequency) + (if gains(band.shape) {
        "  "@ + gain_text(band.gain as int)
    } else {
        Seq::empty()
    }) + "  Q "@ + fixed(band.q as nat, 1_000, 2, Precision::Single)
}

/// What is read of a band when the pointer rests on its point.
pub fn node_readout(index: u64, band: &EqBand) -> (text: String)
    requires
        index < MOST_BANDS,
    ensures
        text@ == node_text(index as nat, *band),
{
    let mut text = String::new();
    push_decimal(&mut text, index + 1);
    text.append("  ");
    text.append(frequency_label(band.frequency).as_str());
    if has_gain(band.shape) {
        text.append("  ");
        text.append(format_gain(band.gain).as_str());
    }
    text.append("  Q ");
    push_fixed(&mut text, band.q as u64, 1_000, 2, Precision::Single);
    assert(text@ =~= node_text(index as nat, *band));
    text
}

/// The highest frequency that a sample rate carries, and that a band has.
pub open spec fn top_frequency(sample_rate: int) -> int {
    least(sample_rate * 499, HIGHEST_FREQUENCY as int)
}

/// The highest frequency of a band at a sample rate.
pub fn max_frequency(sample_rate: u32) -> (frequency: u32)
    ensures
        frequency == top_frequency(sample_rate as int),
{
    let carried: u64 = sample_rate as u64 * 499;
    if carried <= HIGHEST_FREQUENCY as u64 {
        carried as u32
    } else {
        HIGHEST_FREQUENCY
    }
}

/// The first of the nearest points within reach, from the distances of all.
pub open spec fn nearest(distances: Seq<u64>) -> Option<int>
    decreases distances.len(),
{
    if distances.len() == 0 {
        None
    } else {
        let last = distances.last();
        match nearest(distances.drop_last()) {
            Some(index) => if last < distances[index] {
                Some(distances.len() - 1)
            } else {
                Some(index)
            },
            None => if last <= NODE_REACH {
                Some(distances.len() - 1)
            } else {
                None
            },
        }
    }
}

proof fn lemma_nearest(distances: Seq<u64>)
    ensures
        nearest(distances) matches Some(index) ==> 0 <= index < distances.len()
            && distances[index] <= NODE_REACH,
    decreases distances.len(),
{
    if distances.len() > 0 {
        lemma_nearest(distances.drop_last());
    }
}

/// The point that the pointer takes hold of, from its distances to all points.
pub fn closest_band(distances: &Vec<u64>) -> (band: Option<usize>)
    ensures
        match nearest(distances@) {
            Some(index) => band == Some(index as usize) && index < distances@.len(),
            None => band is None,
        },
{
    let mut found: Option<usize> = None;
    let mut index: usize = 0;
    assert(distances@.take(0) =~= Seq::empty());
    while index < distances.len()
        invariant
            index <= distances.len(),
            match nearest(distances@.take(index as int)) {
                Some(place) => found == Some(place as usize) && 0 <= place < index,
                None => found is None,
            },
        decreases distances.len() - index,
    {
        assert(distances@.take(index + 1).drop_last() =~= distances@.take(index as int));
        match found {
            Some(place) => {
                if distances[index] < distances[place] {
                    found = Some(index);
                }
            },
            None => {
                if distances[index] <= NODE_REACH {
                    found = Some(index);
                }
            },
        }
        index += 1;
    }
    assert(distances@.take(index as int) =~= distances@);
    found
}

/// What the user does in the window.
#[derive(Clone, Copy, Debug)]
pub enum EqEvent {
    OutputGain(i32),
    Select(usize),
    /// Turn a band on or off.
    ToggleBand(usize),
    Remove(usize),
    AddBand,
    /// The graph was clicked, near this point.
    Click(Option<usize>),
    /// A drag started, near this point.
    Press(Option<usize>),
    /// An empty place of the graph was clicked twice.
    Fill { frequency: u32, gain: i32 },
    /// The pointer drags to here.
    Drag { frequency: u32, gain: i32 },
    /// The pointer drags for another width.
    DragWidth(u32),
    Release,
    /// A field of the selected band is held.
    HoldField,
    Shape(EqShape),
    Frequency(u32),
    Gain(i32),
    Q(u32),
    Slope(FilterSlope),
    Bypass,
}

/// What is to be done, in this order.
#[derive(Clone, Copy, Debug, PartialEq, Eq, Structural)]
pub struct EqOutcome {
    /// Changes from now on are one step of the history.
    pub begin: bool,
    /// The settings changed.
    pub changed: bool,
    /// The step of the history is complete.
    pub end: bool,
    pub remove: Option<usize>,
    pub bypass: bool,
}

/// Nothing is to be done.
pub open spec fn quiet() -> EqOutcome {
    EqOutcome { begin: false, changed: false, end: false, remove: None, bypass: false }
}

/// The selected band of a list that may have become shorter.
pub open spec fn kept_selection(selected: usize, count: nat) -> usize {
    if count == 0 {
        0
    } else if selected < count {
        selected
    } else {
        (count - 1) as usize
    }
}

/// A band after its point was dragged.
pub open spec fn dragged(band: EqBand, frequency: u32, gain: i32, top: u32) -> EqBand {
    EqBand {
        frequency: kept_frequency(frequency, top),
        gain: if gains(band.shape) {
            clamped(gain as int, -GAIN_RANGE as int, GAIN_RANGE as int) as i32
        } else {
            band.gain
        },
        ..band
    }
}

/// A frequency that a band can have.
pub open spec fn kept_frequency(frequency: u32, top: u32) -> u32 {
    if frequency < LOWEST_FREQUENCY {
        LOWEST_FREQUENCY
    } else if frequency > top {
        top
    } else {
        frequency
    }
}

/// The band that an event changes, and what it becomes.
pub open spec fn changed_band(
    state: EqEditorState,
    bands: Seq<EqBand>,
    event: EqEvent,
    top: u32,
) -> Option<(int, EqBand)> {
    let selected = kept_selection(state.selected, bands.len()) as int;
    match event {
        EqEvent::ToggleBand(index) => if index < bands.len() {
            Some(
                (
                    index as int,
                    EqBand { enabled: !bands[index as int].enabled, ..bands[index as int] },
                ),
            )
        } else {
            None
        },
        EqEvent::Drag { frequency, gain } => match state.drag_band {
            Some(index) => if index < bands.len() {
                Some((index as int, dragged(bands[index as int], frequency, gain, top)))
            } else {
                None
            },
            None => None,
        },
        EqEvent::DragWidth(q) => match state.drag_band {
            Some(index) => if index < bands.len() {
                Some(
                    (
                        index as int,
                        EqBand {
                            q: clamped(q as int, LEAST_Q as int, GREATEST_Q as int) as u32,
                            ..bands[index as int]
                        },
                    ),
                )
            } else {
                None
            },
            None => None,
        },
        EqEvent::Shape(shape) => if bands.len() > 0 {
            Some((selected, EqBand { shape, ..bands[selected] }))
        } else {
            None
        },
        EqEvent::Frequency(frequency) => if bands.len() > 0 {
            Some(
                (
                    selected,
                    EqBand { frequency: kept_frequency(frequency, top), ..bands[selected] },
                ),
            )
        } else {
            None
        },
        EqEvent::Gain(gain) => if bands.len() > 0 && gains(bands[selected].shape) {
            Some(
                (
                    selected,
                    EqBand {
                        gain: clamped(gain as int, -GAIN_RANGE as int, GAIN_RANGE as int) as i32,
                        ..bands[selected]
                    },
                ),
            )
        } else {
            None
        },
        EqEvent::Q(q) => if bands.len() > 0 {
            Some(
                (
                    selected,
                    EqBand {
                        q: clamped(q as int, LEAST_Q as int, GREATEST_Q as int) as u32,
                        ..bands[selected]
                    },
                ),
            )
        } else {
            None
        },
        EqEvent::Slope(value) => if bands.len() > 0 && (bands[selected].shape is HighPass
            || bands[selected].shape is LowPass) {
            Some((selected, EqBand { slope: value, ..bands[selected] }))
        } else {
            None
        },
        _ => None,
    }
}

/// The band that an event adds.
pub open spec fn new_band(bands: Seq<EqBand>, event: EqEvent, fresh: EqBand, top: u32) -> Option<
    EqBand,
> {
    if bands.len() >= MOST_BANDS {
        None
    } else {
        match event {
            EqEvent::AddBand => Some(fresh),
            EqEvent::Fill { frequency, gain } => Some(
                EqBand {
                    frequency: kept_frequency(frequency, top),
                    gain: clamped(gain as int, -GAIN_RANGE as int, GAIN_RANGE as int) as i32,
                    ..fresh
                },
            ),
            _ => None,
        }
    }
}

/// The settings after an event; a band that is to be removed is still there.
pub open spec fn settings_after(
    state: EqEditorState,
    settings: EqModel,
    event: EqEvent,
    fresh: EqBand,
    top: u32,
) -> EqModel {
    match event {
        EqEvent::OutputGain(gain) => EqModel {
            output_gain: clamped(gain as int, -GAIN_RANGE as int, GAIN_RANGE as int) as i32,
            ..settings
        },
        _ => match (
            changed_band(state, settings.bands, event, top),
            new_band(settings.bands, event, fresh, top),
        ) {
            (Some((index, band)), _) => EqModel {
                bands: settings.bands.update(index, band),
                ..settings
            },
            (None, Some(band)) => EqModel { bands: settings.bands.push(band), ..settings },
            (None, None) => settings,
        },
    }
}

/// What is remembered after an event.
pub open spec fn state_after(
    state: EqEditorState,
    bands: Seq<EqBand>,
    event: EqEvent,
    fresh: EqBand,
    top: u32,
) -> EqEditorState {
    let kept = EqEditorState { selected: kept_selection(state.selected, bands.len()), ..state };
    match event {
        EqEvent::Select(index) => if index < bands.len() {
            EqEditorState { selected: index, ..kept }
        } else {
            kept
        },
        EqEvent::Click(Some(index)) => if index < bands.len() {
            EqEditorState { selected: index, ..kept }
        } else {
            kept
        },
        EqEvent::Press(Some(index)) => if index < bands.len() {
            EqEditorState { selected: index, drag_band: Some(index) }
        } else {
            EqEditorState { drag_band: None, ..kept }
        },
        EqEvent::Press(None) => EqEditorState { drag_band: None, ..kept },
        EqEvent::Release => EqEditorState { drag_band: None, ..kept },
        EqEvent::Remove(index) => if index < bands.len() {
            EqEditorState {
                selected: if index > 0 {
                    (index - 1) as usize
                } else {
                    0
                },
                ..kept
            }
        } else {
            kept
        },
        _ => if new_band(bands, event, fresh, top) is Some {
            EqEditorState { selected: bands.len() as usize, ..kept }
        } else {
            kept
        },
    }
}

/// What an event asks for.
pub open spec fn outcome_of(
    state: EqEditorState,
    settings: EqModel,
    event: EqEvent,
    fresh: EqBand,
    top: u32,
) -> EqOutcome {
    let changed = settings_after(state, settings, event, fresh, top) != settings;
    match event {
        EqEvent::Press(Some(index)) => EqOutcome {
            begin: index < settings.bands.len(),
            ..quiet()
        },
        EqEvent::HoldField => EqOutcome { begin: true, ..quiet() },
        EqEvent::Release => EqOutcome { end: true, ..quiet() },
        EqEvent::Remove(index) => EqOutcome {
            remove: if index < settings.bands.len() {
                Some(index)
            } else {
                None
            },
            ..quiet()
        },
        EqEvent::Bypass => EqOutcome { bypass: true, ..quiet() },
        _ => EqOutcome { changed, ..quiet() },
    }
}

fn keep_gain(gain: i32) -> (kept: i32)
    ensures
        kept == clamped(gain as int, -GAIN_RANGE as int, GAIN_RANGE as int),
{
    if gain < -GAIN_RANGE {
        -GAIN_RANGE
    } else if gain > GAIN_RANGE {
        GAIN_RANGE
    } else {
        gain
    }
}

fn keep_frequency(frequency: u32, top: u32) -> (kept: u32)
    ensures
        kept == kept_frequency(frequency, top),
{
    if frequency < LOWEST_FREQUENCY {
        LOWEST_FREQUENCY
    } else if frequency > top {
        top
    } else {
        frequency
    }
}

fn find_change(state: &EqEditorState, bands: &Vec<EqBand>, event: EqEvent, top: u32) -> (change:
    Option<(usize, EqBand)>)
    ensures
        match changed_band(*state, bands@, event, top) {
            Some((index, band)) => change == Some((index as usize, band)) && 0 <= index
                < bands@.len(),
            None => change is None,
        },
{
    let count: usize = bands.len();
    let selected: usize = if count == 0 {
        0
    } else if state.selected < count {
        state.selected
    } else {
        count - 1
    };
    match event {
        EqEvent::ToggleBand(index) => {
            if index < count {
                let mut band = bands[index];
                band.enabled = !band.enabled;
                Some((index, band))
            } else {
                None
            }
        },
        EqEvent::Drag { frequency, gain } => match state.drag_band {
            Some(index) => if index < count {
                let mut band = bands[index];
                band.frequency = keep_frequency(frequency, top);
                if has_gain(band.shape) {
                    band.gain = keep_gain(gain);
                }
                Some((index, band))
            } else {
                None
            },
            None => None,
        },
        EqEvent::DragWidth(q) => match state.drag_band {
            Some(index) => if index < count {
                let mut band = bands[index];
                band.q = crate::transport::clamp(q, LEAST_Q, GREATEST_Q);
                Some((index, band))
            } else {
                None
            },
            None => None,
        },
        EqEvent::Shape(shape) => {
            if count > 0 {
                let mut band = bands[selected];
                band.shape = shape;
                Some((selected, band))
            } else {
                None
            }
        },
        EqEvent::Frequency(frequency) => {
            if count > 0 {
                let mut band = bands[selected];
                band.frequency = keep_frequency(frequency, top);
                Some((selected, band))
            } else {
                None
            }
        },
        EqEvent::Gain(gain) => {
            if count > 0 && has_gain(bands[selected].shape) {
                let mut band = bands[selected];
                band.gain = keep_gain(gain);
                Some((selected, band))
            } else {
                None
            }
        },
        EqEvent::Q(q) => {
            if count > 0 {
                let mut band = bands[selected];
                band.q = crate::transport::clamp(q, LEAST_Q, GREATEST_Q);
                Some((selected, band))
            } else {
                None
            }
        },
        EqEvent::Slope(value) => {
            if count > 0 && has_slope(bands[selected].shape) {
                let mut band = bands[selected];
                band.slope = value;
                Some((selected, band))
            } else {
                None
            }
        },
        _ => None,
    }
}

fn find_new(count: usize, event: EqEvent, fresh: EqBand, top: u32, Ghost(bands): Ghost<Seq<EqBand>>)
    -> (band: Option<EqBand>)
    requires
        count == bands.len(),
    ensures
        band == new_band(bands, event, fresh, top),
{
    if count >= MOST_BANDS {
        return None;
    }
    match event {
        EqEvent::AddBand => Some(fresh),
        EqEvent::Fill { frequency, gain } => {
            let mut band = fresh;
            band.frequency = keep_frequency(frequency, top);
            band.gain = keep_gain(gain);
            Some(band)
        },
        _ => None,
    }
}

impl EqEditorState {
    /// The first band is selected, and none is dragged.
    pub fn new() -> (state: Self)
        ensures
            state == (EqEditorState { selected: 0, drag_band: None }),
    {
        EqEditorState { selected: 0, drag_band: None }
    }

    /// Performs an event. `fresh` is a band as it is first added, `top` the highest
    /// frequency of a band.
    pub fn equalizer_editor(
        &mut self,
        settings: &mut EqParameters,
        event: EqEvent,
        fresh: EqBand,
        top: u32,
    ) -> (outcome: EqOutcome)
        ensures
            final(settings)@ == settings_after(*old(self), old(settings)@, event, fresh, top),
            *final(self) == state_after(*old(self), old(settings)@.bands, event, fresh, top),
            outcome == outcome_of(*old(self), old(settings)@, event, fresh, top),
    {
        let count: usize = settings.bands.len();
        let change = find_change(self, &settings.bands, event, top);
        let addition = find_new(count, event, fresh, top, Ghost(settings.bands@));
        self.selected = if count == 0 {
            0
        } else if self.selected < count {
            self.selected
        } else {
            count - 1
        };
        let mut outcome = EqOutcome {
            begin: false,
            changed: false,
            end: false,
            remove: None,
            bypass: false,
        };
        match event {
            EqEvent::OutputGain(gain) => {
                let kept: i32 = keep_gain(gain);
                outcome.changed = kept != settings.output_gain;
                settings.output_gain = kept;
            },
            EqEvent::Select(index) => {
                if index < count {
                    self.selected = index;
                }
            },
            EqEvent::Click(Some(index)) => {
                if index < count {
                    self.selected = index;
                }
            },
            EqEvent::Press(near) => {
                self.drag_band = None;
                if let Some(index) = near {
                    if index < count {
                        self.selected = index;
                        self.drag_band = Some(index);
                        outcome.begin = true;
                    }
                }
            },
            EqEvent::HoldField => {
                outcome.begin = true;
            },
            EqEvent::Release => {
                self.drag_band = None;
                outcome.end = true;
            },
            EqEvent::Remove(index) => {
                if index < count {
                    self.selected = if index > 0 {
                        index - 1
                    } else {
                        0
                    };
                    outcome.remove = Some(index);
                }
            },
            EqEvent::Bypass => {
                outcome.bypass = true;
            },
            _ => {
                if let Some((index, band)) = change {
                    outcome.changed = band != settings.bands[index];
                    settings.bands[index] = band;
                    proof {
                        let before = old(settings)@.bands;
                        if band == before[index as int] {
                            assert(before.update(index as int, band) =~= before);
                        } else {
                            assert(before.update(index as int, band)[index as int] == band);
                        }
                    }
                } else if let Some(band) = addition {
                    settings.bands.push(band);
                    self.selected = count;
                    outcome.changed = true;
                    assert(old(settings)@.bands.push(band).len() == count + 1);
                }
            },
        }
        assert(settings@ =~= settings_after(*old(self), old(settings)@, event, fresh, top));
        outcome
    }
}

/// Columns of points of a response curve on a graph of this width, in points.
pub fn curve_columns(width: u32) -> (columns: u32)
    ensures
        columns == clamped(width as int, 80, 480),
{
    crate::transport::clamp(width, 80, 480)
}

/// The lines of the graph's frequencies.
pub open spec fn grid_lines() -> Seq<(u32, Seq<char>)> {
    seq![
        (20u32, "20"@),
        (50u32, "50"@),
        (100u32, "100"@),
        (200u32, "200"@),
        (500u32, "500"@),
        (1_000u32, "1k"@),
        (2_000u32, "2k"@),
        (5_000u32, "5k"@),
        (10_000u32, "10k"@),
        (20_000u32, "20k"@),
    ]
}

/// Whether a line is drawn: it lies on the graph, and a narrow graph has every second.
pub open spec fn drawn(frequency: u32, top: u32, narrow: bool) -> bool {
    frequency * 1_000 <= top && !(narrow && (frequency == 50 || frequency == 200 || frequency
        == 1_000 || frequency == 5_000 || frequency == 20_000))
}

/// The lines that are drawn, of the first `count`.
pub open spec fn drawn_lines(top: u32, narrow: bool, count: nat) -> Seq<(u32, Seq<char>)>
    decreases count,
{
    if count == 0 {
        Seq::empty()
    } else {
        let line = grid_lines()[count - 1];
        let before = drawn_lines(top, narrow, (count - 1) as nat);
        if drawn(line.0, top, narrow) {
            before.push(line)
        } else {
            before
        }
    }
}

/// What lines say.
pub open spec fn lines_view(lines: Seq<(u32, &'static str)>) -> Seq<(u32, Seq<char>)> {
    lines.map_values(|line: (u32, &'static str)| (line.0, line.1@))
}

fn draw_line(
    lines: &mut Vec<(u32, &'static str)>,
    frequency: u32,
    label: &'static str,
    top: u32,
    narrow: bool,
)
    requires
        frequency <= 20_000,
    ensures
        lines_view(final(lines)@) == if drawn(frequency, top, narrow) {
            lines_view(old(lines)@).push((frequency, label@))
        } else {
            lines_view(old(lines)@)
        },
{
    let skipped = narrow && (frequency == 50 || frequency == 200 || frequency == 1_000 || frequency
        == 5_000 || frequency == 20_000);
    if frequency * 1_000 <= top && !skipped {
        lines.push((frequency, label));
        assert(lines_view(lines@) =~= lines_view(old(lines)@).push((frequency, label@)));
    }
}

/// The lines of the graph's frequencies, with their labels. The width is in points.
pub fn frequency_grid(width: u32, top: u32) -> (lines: Vec<(u32, &'static str)>)
    ensures
        lines_view(lines@) == drawn_lines(top, width < 600, 10),
{
    let narrow = width < 600;
    let mut lines: Vec<(u32, &'static str)> = Vec::new();
    assert(lines_view(lines@) =~= Seq::empty());
    draw_line(&mut lines, 20, "20", top, narrow);
    draw_line(&mut lines, 50, "50", top, narrow);
    draw_line(&mut lines, 100, "100", top, narrow);
    draw_line(&mut lines, 200, "200", top, narrow);
    draw_line(&mut lines, 500, "500", top, narrow);
    draw_line(&mut lines, 1_000, "1k", top, narrow);
    draw_line(&mut lines, 2_000, "2k", top, narrow);
    draw_line(&mut lines, 5_000, "5k", top, narrow);
    draw_line(&mut lines, 10_000, "10k", top, narrow);
    draw_line(&mut lines, 20_000, "20k", top, narrow);
    proof {
        reveal_with_fuel(drawn_lines, 11);
    }
    lines
}

/// The corners of a triangle, as places of points.
#[derive(Clone, Copy, Debug, PartialEq, Eq, Structural)]
pub struct Triangle {
    pub first: u32,
    pub second: u32,
    pub third: u32,
}

/// The area between a curve and the middle line, in triangles: each column has a point on
/// the line and then one on the curve.
pub open spec fn area(columns: nat) -> Seq<Triangle> {
    Seq::new(
        2 * columns,
        |i: int| {
            let corner = i / 2 * 2;
            if i % 2 == 0 {
                Triangle {
                    first: corner as u32,
                    second: (corner + 1) as u32,
                    third: (corner + 2) as u32,
                }
            } else {
                Triangle {
                    first: (corner + 1) as u32,
                    second: (corner + 2) as u32,
                    third: (corner + 3) as u32,
                }
            }
        },
    )
}

/// The area between a curve and the middle line, in triangles.
pub fn area_mesh(columns: u32) -> (triangles: Vec<Triangle>)
    requires
        columns <= 480,
    ensures
        triangles@ == area(columns as nat),
{
    let mut triangles: Vec<Triangle> = Vec::new();
    let mut column: u32 = 0;
    while column < columns
        invariant
            column <= columns <= 480,
            triangles@ == area(column as nat),
        decreases columns - column,
    {
        let corner: u32 = column * 2;
        triangles.push(Triangle { first: corner, second: corner + 1, third: corner + 2 });
        triangles.push(Triangle { first: corner + 1, second: corner + 2, third: corner + 3 });
        column += 1;
        assert(triangles@ =~= area(column as nat));
    }
    triangles
}

/// What the first bands that are on add at a point, given the response of each band at each
/// point.
pub open spec fn added(bands: Seq<EqBand>, responses: Seq<Vec<i32>>, point: int, count: nat) -> int
    decreases count,
{
    if count == 0 {
        0
    } else {
        let last = count - 1;
        added(bands, responses, point, last as nat) + if bands[last].enabled {
            responses[last]@[point] as int
        } else {
            0
        }
    }
}

/// The level of the whole equalizer at a point: its output gain and what its bands add, and
/// nothing while it is bypassed.
pub open spec fn total_level(
    settings: EqModel,
    equalizer_enabled: bool,
    responses: Seq<Vec<i32>>,
    point: int,
) -> int {
    if equalizer_enabled {
        settings.output_gain + added(
            settings.bands,
            responses,
            point,
            least(settings.bands.len() as int, MOST_BANDS as int) as nat,
        )
    } else {
        0
    }
}

/// Whether the response of each band that adds something is known at each point.
pub open spec fn measured(settings: EqModel, responses: Seq<Vec<i32>>, points: nat) -> bool {
    forall|i: int|
        0 <= i < settings.bands.len() && i < MOST_BANDS && (
        #[trigger] settings.bands[i]).enabled ==> i < responses.len() && responses[i]@.len()
            == points
}

/// The curve of the whole equalizer, in thousandths of a decibel, given the responses of its
/// bands. Bands beyond the eighth are not drawn.
pub fn total_curve(
    settings: &EqParameters,
    equalizer_enabled: bool,
    responses: &Vec<Vec<i32>>,
    points: usize,
) -> (levels: Vec<i64>)
    requires
        equalizer_enabled ==> measured(settings@, responses@, points as nat),
    ensures
        levels@.len() == points,
        forall|i: int|
            0 <= i < points ==> #[trigger] levels@[i] == total_level(
                settings@,
                equalizer_enabled,
                responses@,
                i,
            ),
{
    let count: usize = if settings.bands.len() <= MOST_BANDS {
        settings.bands.len()
    } else {
        MOST_BANDS
    };
    let mut levels: Vec<i64> = Vec::new();
    while levels.len() < points
        invariant
            levels@.len() <= points,
            count == least(settings@.bands.len() as int, MOST_BANDS as int),
            equalizer_enabled ==> measured(settings@, responses@, points as nat),
            forall|i: int|
                0 <= i < levels@.len() ==> #[trigger] levels@[i] == total_level(
                    settings@,
                    equalizer_enabled,
                    responses@,
                    i,
                ),
        decreases points - levels.len(),
    {
        let point: usize = levels.len();
        let mut sum: i64 = 0;
        if equalizer_enabled {
            let mut index: usize = 0;
            while index < count
                invariant
                    index <= count <= settings.bands.len(),
                    count <= MOST_BANDS,
                    point < points,
                    measured(settings@, responses@, points as nat),
                    sum == added(settings@.bands, responses@, point as int, index as nat),
                    index * -0x8000_0000 <= sum <= index * 0x7fff_ffff,
                decreases count - index,
            {
                if settings.bands[index].enabled {
                    assert(settings@.bands[index as int].enabled);
                    sum = sum + responses[index][point] as i64;
                }
                index += 1;
            }
            sum = sum + settings.output_gain as i64;
        }
        levels.push(sum);
    }
    levels
}

/// How the point of a band is drawn.
#[derive(Clone, Copy, Debug, PartialEq, Eq, Structural)]
pub struct NodeStyle {
    /// The point is filled: the band is heard.
    pub filled: bool,
    /// A ring is drawn around the point.
    pub ring: bool,
    /// The curve of the band is drawn.
    pub curve: bool,
    /// The area of the band is drawn.
    pub area: bool,
}

/// How a band is drawn on a graph; a small graph shows only the sum of all.
pub fn paint_graph(
    band: &EqBand,
    index: usize,
    equalizer_enabled: bool,
    selected: Option<usize>,
) -> (style: NodeStyle)
    ensures
        style == (NodeStyle {
            filled: band.enabled && equalizer_enabled,
            ring: selected == Some(index),
            curve: band.enabled && equalizer_enabled && selected is Some,
            area: band.enabled && equalizer_enabled && selected == Some(index),
        }),
{
    let heard = band.enabled && equalizer_enabled;
    NodeStyle {
        filled: heard,
        ring: selected == Some(index),
        curve: heard && selected.is_some(),
        area: heard && selected == Some(index),
    }
}

/// A band that is off, and one beyond the eighth, leave the curve of the equalizer as it is.
pub proof fn silent_bands_leave_the_curve(
    settings: EqModel,
    equalizer_enabled: bool,
    responses: Seq<Vec<i32>>,
    point: int,
    index: int,
    band: EqBand,
)
    requires
        0 <= index < settings.bands.len(),
        index >= MOST_BANDS || (!settings.bands[index].enabled && !band.enabled),
    ensures
        total_level(
            EqModel { bands: settings.bands.update(index, band), ..settings },
            equalizer_enabled,
            responses,
            point,
        ) == total_level(settings, equalizer_enabled, responses, point),
{
    lemma_added_without(
        settings.bands,
        responses,
        point,
        index,
        band,
        least(settings.bands.len() as int, MOST_BANDS as int) as nat,
    );
}

proof fn lemma_added_without(
    bands: Seq<EqBand>,
    responses: Seq<Vec<i32>>,
    point: int,
    index: int,
    band: EqBand,
    count: nat,
)
    requires
        0 <= index < bands.len(),
        count <= bands.len(),
        index >= count || (!bands[index].enabled && !band.enabled),
    ensures
        added(bands.update(index, band), responses, point, count) == added(
            bands,
            responses,
            point,
            count,
        ),
    decreases count,
{
    if count > 0 {
        lemma_added_without(bands, responses, point, index, band, (count - 1) as nat);
    }
}

/// A drag that started on an empty place moves no band.
pub proof fn empty_drags_move_nothing(
    state: EqEditorState,
    settings: EqModel,
    fresh: EqBand,
    top: u32,
    frequency: u32,
    gain: i32,
)
    ensures
        ({
            let pressed = state_after(state, settings.bands, EqEvent::Press(None), fresh, top);
            settings_after(
                pressed,
                settings,
                EqEvent::Drag { frequency, gain },
                fresh,
                top,
            ) == settings
        }),
{
}

/// A drag moves the band that was taken hold of, and no other.
pub proof fn drags_move_one_band(
    state: EqEditorState,
    settings: EqModel,
    fresh: EqBand,
    top: u32,
    index: usize,
    frequency: u32,
    gain: i32,
)
    requires
        index < settings.bands.len(),
    ensures
        ({
            let pressed = state_after(
                state,
                settings.bands,
                EqEvent::Press(Some(index)),
                fresh,
                top,
            );
            let after = settings_after(
                pressed,
                settings,
                EqEvent::Drag { frequency, gain },
                fresh,
                top,
            );
            &&& after.bands.len() == settings.bands.len()
            &&& after.bands[index as int] == dragged(
                settings.bands[index as int],
                frequency,
                gain,
                top,
            )
            &&& forall|other: int|
                0 <= other < settings.bands.len() && other != index ==> after.bands[other]
                    == settings.bands[other]
        }),
{
}

/// An equalizer never gets more than eight bands, and a selected band is there as long as
/// there is any.
pub proof fn bands_stay_countable(
    state: EqEditorState,
    settings: EqModel,
    event: EqEvent,
    fresh: EqBand,
    top: u32,
)
    requires
        settings.bands.len() <= MOST_BANDS,
    ensures
        ({
            let after = settings_after(state, settings, event, fresh, top);
            let selected = state_after(state, settings.bands, event, fresh, top).selected;
            &&& after.bands.len() <= MOST_BANDS
            &&& after.bands.len() > 0 ==> selected < after.bands.len()
        }),
{
}

/// Every corner of the area is a point of the curve or of the line below it.
pub proof fn areas_stay_on_the_curve(columns: nat)
    requires
        columns <= 480,
    ensures
        forall|i: int|
            0 <= i < area(columns).len() ==> (#[trigger] area(columns)[i]).third < 2 * (columns
                + 1),
{
}

/// An empty place that is clicked twice becomes a band at that place, as far as a band can be
/// there: its frequency and its gain are those of the pointer, the rest is as of a new band. It
/// comes last, is selected, and leaves the other bands as they were. A ninth band is not added.
pub proof fn filled_places_become_bands(
    state: EqEditorState,
    settings: EqModel,
    frequency: u32,
    gain: i32,
    fresh: EqBand,
    top: u32,
)
    requires
        10_000 <= top,
    ensures
        ({
            let event = EqEvent::Fill { frequency, gain };
            let after = settings_after(state, settings, event, fresh, top);
            let added = after.bands.last();
            &&& after.output_gain == settings.output_gain
            &&& settings.bands.len() >= 8 ==> after.bands == settings.bands
            &&& settings.bands.len() < 8 ==> {
                &&& after.bands.len() == settings.bands.len() + 1
                &&& forall|i: int|
                    0 <= i < settings.bands.len() ==> #[trigger] after.bands[i]
                        == settings.bands[i]
                &&& 10_000 <= frequency <= top ==> added.frequency == frequency
                &&& frequency < 10_000 ==> added.frequency == 10_000
                &&& frequency > top ==> added.frequency == top
                &&& -24_000 <= gain <= 24_000 ==> added.gain == gain
                &&& gain < -24_000 ==> added.gain == -24_000
                &&& gain > 24_000 ==> added.gain == 24_000
                &&& added.enabled == fresh.enabled && added.shape == fresh.shape && added.q
                    == fresh.q && added.slope == fresh.slope
                &&& state_after(state, settings.bands, event, fresh, top).selected
                    == settings.bands.len()
                &&& outcome_of(state, settings, event, fresh, top).changed
            }
        }),
{
    let event = EqEvent::Fill { frequency, gain };
    let after = settings_after(state, settings, event, fresh, top);
    if settings.bands.len() < 8 {
        assert(after.bands.len() != settings.bands.len());
    }
}

/// A band that is added is the new band, comes last and is selected, up to the eighth.
pub proof fn added_bands_come_last(
    state: EqEditorState,
    settings: EqModel,
    fresh: EqBand,
    top: u32,
)
    ensures
        ({
            let after = settings_after(state, settings, EqEvent::AddBand, fresh, top);
            let selected = state_after(
                state,
                settings.bands,
                EqEvent::AddBand,
                fresh,
                top,
            ).selected;
            &&& settings.bands.len() < 8 ==> after.bands == settings.bands.push(fresh) && selected
                == settings.bands.len()
            &&& settings.bands.len() >= 8 ==> after == settings
        }),
{
}

/// A point that is dragged follows the pointer: its band gets the frequency of the pointer and,
/// where it can be raised and lowered, the gain of the pointer, as far as a band can have them.
/// Nothing else of it changes, and no other band.
pub proof fn dragged_points_follow_the_pointer(
    state: EqEditorState,
    settings: EqModel,
    index: usize,
    frequency: u32,
    gain: i32,
    fresh: EqBand,
    top: u32,
)
    requires
        state.drag_band == Some(index),
        index < settings.bands.len(),
        10_000 <= top,
    ensures
        ({
            let before = settings.bands[index as int];
            let event = EqEvent::Drag { frequency, gain };
            let after = settings_after(state, settings, event, fresh, top);
            let moved = after.bands[index as int];
            let lifted = before.shape is Bell || before.shape is LowShelf || before.shape
                is HighShelf;
            &&& after.bands.len() == settings.bands.len()
            &&& after.output_gain == settings.output_gain
            &&& forall|i: int|
                0 <= i < settings.bands.len() && i != index ==> #[trigger] after.bands[i]
                    == settings.bands[i]
            &&& 10_000 <= frequency <= top ==> moved.frequency == frequency
            &&& frequency < 10_000 ==> moved.frequency == 10_000
            &&& frequency > top ==> moved.frequency == top
            &&& lifted && -24_000 <= gain <= 24_000 ==> moved.gain == gain
            &&& lifted && gain > 24_000 ==> moved.gain == 24_000
            &&& lifted && gain < -24_000 ==> moved.gain == -24_000
            &&& !lifted ==> moved.gain == before.gain
            &&& moved.enabled == before.enabled && moved.shape == before.shape && moved.q
                == before.q && moved.slope == before.slope
        }),
{
}

/// A drag for the width changes the width of the band that was taken hold of, between 0.1 and
/// 30, and nothing else.
pub proof fn width_drags_change_the_width(
    state: EqEditorState,
    settings: EqModel,
    index: usize,
    q: u32,
    fresh: EqBand,
    top: u32,
)
    requires
        state.drag_band == Some(index),
        index < settings.bands.len(),
    ensures
        ({
            let before = settings.bands[index as int];
            let after = settings_after(state, settings, EqEvent::DragWidth(q), fresh, top);
            let moved = after.bands[index as int];
            &&& after.bands == settings.bands.update(index as int, moved)
            &&& 100 <= q <= 30_000 ==> moved.q == q
            &&& q < 100 ==> moved.q == 100
            &&& q > 30_000 ==> moved.q == 30_000
            &&& moved == (EqBand { q: moved.q, ..before })
        }),
{
}

/// A field changes what it is named after in the selected band, and nothing else: the frequency,
/// the width, the shape, the gain where the band can be raised and lowered, and the slope where
/// it is a pass.
pub proof fn fields_change_the_selected_band(
    state: EqEditorState,
    settings: EqModel,
    fresh: EqBand,
    top: u32,
    frequency: u32,
    gain: i32,
    q: u32,
    shape: EqShape,
    slope: FilterSlope,
)
    requires
        state.selected < settings.bands.len(),
        10_000 <= frequency <= top,
        -24_000 <= gain <= 24_000,
        100 <= q <= 30_000,
    ensures
        ({
            let place = state.selected as int;
            let before = settings.bands[place];
            let lifted = before.shape is Bell || before.shape is LowShelf || before.shape
                is HighShelf;
            let passes = before.shape is HighPass || before.shape is LowPass;
            &&& settings_after(state, settings, EqEvent::Frequency(frequency), fresh, top).bands
                == settings.bands.update(place, EqBand { frequency, ..before })
            &&& settings_after(state, settings, EqEvent::Q(q), fresh, top).bands
                == settings.bands.update(place, EqBand { q, ..before })
            &&& settings_after(state, settings, EqEvent::Shape(shape), fresh, top).bands
                == settings.bands.update(place, EqBand { shape, ..before })
            &&& settings_after(state, settings, EqEvent::Gain(gain), fresh, top).bands == if lifted {
                settings.bands.update(place, EqBand { gain, ..before })
            } else {
                settings.bands
            }
            &&& settings_after(state, settings, EqEvent::Slope(slope), fresh, top).bands
                == if passes {
                settings.bands.update(place, EqBand { slope, ..before })
            } else {
                settings.bands
            }
        }),
{
}

/// A switch turns its band on or off, and thrown again leads back; the output gain is what it was
/// set to, within 24 dB. Neither touches anything else.
pub proof fn switches_and_output_do_what_they_say(
    state: EqEditorState,
    settings: EqModel,
    fresh: EqBand,
    top: u32,
    index: usize,
    gain: i32,
)
    requires
        index < settings.bands.len(),
        -24_000 <= gain <= 24_000,
    ensures
        ({
            let before = settings.bands[index as int];
            let once = settings_after(state, settings, EqEvent::ToggleBand(index), fresh, top);
            let twice = settings_after(state, once, EqEvent::ToggleBand(index), fresh, top);
            let loud = settings_after(state, settings, EqEvent::OutputGain(gain), fresh, top);
            &&& once.bands == settings.bands.update(
                index as int,
                EqBand { enabled: !before.enabled, ..before },
            )
            &&& once.output_gain == settings.output_gain
            &&& twice == settings
            &&& loud.output_gain == gain && loud.bands == settings.bands
        }),
{
    let before = settings.bands[index as int];
    let once = settings_after(state, settings, EqEvent::ToggleBand(index), fresh, top);
    let twice = settings_after(state, once, EqEvent::ToggleBand(index), fresh, top);
    assert(twice.bands =~= settings.bands);
}

/// Looking, taking hold, letting go and removing change no setting; removing names the band and
/// selects the one before it. Taking hold of a point selects its band and begins a step of the
/// history; letting go ends both.
pub proof fn holding_and_removing_change_no_setting(
    state: EqEditorState,
    settings: EqModel,
    fresh: EqBand,
    top: u32,
    index: usize,
)
    requires
        index < settings.bands.len(),
    ensures
        settings_after(state, settings, EqEvent::Select(index), fresh, top) == settings,
        settings_after(state, settings, EqEvent::Click(Some(index)), fresh, top) == settings,
        settings_after(state, settings, EqEvent::Press(Some(index)), fresh, top) == settings,
        settings_after(state, settings, EqEvent::Release, fresh, top) == settings,
        settings_after(state, settings, EqEvent::Remove(index), fresh, top) == settings,
        settings_after(state, settings, EqEvent::Bypass, fresh, top) == settings,
        state_after(state, settings.bands, EqEvent::Select(index), fresh, top).selected == index,
        state_after(state, settings.bands, EqEvent::Click(Some(index)), fresh, top).selected
            == index,
        state_after(state, settings.bands, EqEvent::Press(Some(index)), fresh, top) == (
        EqEditorState { selected: index, drag_band: Some(index) }),
        state_after(state, settings.bands, EqEvent::Release, fresh, top).drag_band is None,
        index > 0 ==> state_after(
            state,
            settings.bands,
            EqEvent::Remove(index),
            fresh,
            top,
        ).selected == index - 1,
        index == 0 ==> state_after(
            state,
            settings.bands,
            EqEvent::Remove(index),
            fresh,
            top,
        ).selected == 0,
        outcome_of(state, settings, EqEvent::Remove(index), fresh, top).remove == Some(index),
        outcome_of(state, settings, EqEvent::Press(Some(index)), fresh, top).begin,
        outcome_of(state, settings, EqEvent::Release, fresh, top).end,
        outcome_of(state, settings, EqEvent::Bypass, fresh, top).bypass,
        !outcome_of(state, settings, EqEvent::Select(index), fresh, top).changed,
        !outcome_of(state, settings, EqEvent::Remove(index), fresh, top).bypass,
        !outcome_of(state, settings, EqEvent::Remove(index), fresh, top).changed,
{
}

/// The pointer takes hold of the nearest point, the first of several, if it is within 18 points
/// of the screen; beyond that of none.
pub proof fn the_nearest_point_is_held(distances: Seq<u64>)
    ensures
        match nearest(distances) {
            Some(index) => {
                &&& 0 <= index < distances.len()
                &&& distances[index] <= 18_000
                &&& forall|i: int| 0 <= i < distances.len() ==> distances[index] <= #[trigger]
                    distances[i]
                &&& forall|i: int| 0 <= i < index ==> distances[index] < #[trigger] distances[i]
            },
            None => forall|i: int| 0 <= i < distances.len() ==> #[trigger] distances[i] > 18_000,
        },
    decreases distances.len(),
{
    if distances.len() > 0 {
        let rest = distances.drop_last();
        the_nearest_point_is_held(rest);
        assert forall|i: int| 0 <= i < rest.len() implies #[trigger] distances[i] == rest[i] by {
        }
        match nearest(rest) {
            Some(index) => {
                assert(distances[index] == rest[index]);
            },
            None => {
                assert forall|i: int| 0 <= i < distances.len() - 1 implies #[trigger] distances[i]
                    > 18_000 by {
                    assert(distances[i] == rest[i]);
                }
            },
        }
    }
}

/// Bands reach up to just below half the sample rate, 0.499 of it, and to 24 kHz at most.
pub proof fn bands_stay_below_half_the_rate(sample_rate: int)
    requires
        0 <= sample_rate,
    ensures
        1_000 * top_frequency(sample_rate) <= 499 * (1_000 * sample_rate),
        top_frequency(sample_rate) <= 24_000_000,
        499 * sample_rate <= 24_000_000 ==> top_frequency(sample_rate) == 499 * sample_rate,
        499 * sample_rate > 24_000_000 ==> top_frequency(sample_rate) == 24_000_000,
{
}

/// The curve adds up: without a band that is on it is the output gain, each band that is on adds
/// its own response, and a bypassed equalizer is flat.
pub proof fn curves_add_up(
    settings: EqModel,
    responses: Seq<Vec<i32>>,
    point: int,
    band: EqBand,
    response: Vec<i32>,
)
    requires
        settings.bands.len() < 8,
        responses.len() == settings.bands.len(),
    ensures
        total_level(settings, false, responses, point) == 0,
        settings.bands.len() == 0 ==> total_level(settings, true, responses, point)
            == settings.output_gain,
        ({
            let more = EqModel { bands: settings.bands.push(band), ..settings };
            total_level(more, true, responses.push(response), point) == total_level(
                settings,
                true,
                responses,
                point,
            ) + if band.enabled {
                response@[point] as int
            } else {
                0
            }
        }),
{
    lemma_added_prefix(
        settings.bands,
        settings.bands.push(band),
        responses,
        responses.push(response),
        point,
        settings.bands.len(),
    );
}

proof fn lemma_added_prefix(
    bands: Seq<EqBand>,
    more: Seq<EqBand>,
    responses: Seq<Vec<i32>>,
    others: Seq<Vec<i32>>,
    point: int,
    count: nat,
)
    requires
        count <= bands.len() <= more.len(),
        bands.len() <= responses.len() <= others.len(),
        forall|i: int| 0 <= i < bands.len() ==> bands[i] == more[i] && responses[i] == others[i],
    ensures
        added(bands, responses, point, count) == added(more, others, point, count),
    decreases count,
{
    if count > 0 {
        lemma_added_prefix(bands, more, responses, others, point, (count - 1) as nat);
    }
}

/// The area below a curve is made of two triangles to the column, on the two points of the
/// column and the two of the next.
pub proof fn areas_fill_each_column(columns: nat, column: int)
    requires
        0 <= column < columns <= 480,
    ensures
        area(columns).len() == 2 * columns,
        area(columns)[2 * column] == (Triangle {
            first: (2 * column) as u32,
            second: (2 * column + 1) as u32,
            third: (2 * column + 2) as u32,
        }),
        area(columns)[2 * column + 1] == (Triangle {
            first: (2 * column + 1) as u32,
            second: (2 * column + 2) as u32,
            third: (2 * column + 3) as u32,
        }),
{
}

/// Slopes have the decibels that they are named after.
pub proof fn slopes_are_as_steep_as_they_are_named()
    ensures
        decibels(FilterSlope::Db12) == 12,
        decibels(FilterSlope::Db24) == 24,
        decibels(FilterSlope::Db48) == 48,
{
}

/// Frequencies are read in whole hertz below a kilohertz, and in tenths of kilohertz from there
/// on.
pub proof fn frequencies_are_read_in_hertz_or_kilohertz(frequency: u32)
    ensures
        frequency < 1_000_000 ==> frequency_text(frequency) == fixed(
            frequency as nat,
            1_000,
            0,
            Precision::Single,
        ) + " Hz"@,
        frequency >= 1_000_000 ==> frequency_text(frequency) == fixed(
            frequency as nat,
            1_000_000,
            1,
            Precision::Single,
        ) + " kHz"@,
{
}

/// A band is read by its number, counted from one, and by what it is; its gain only where it can
/// be raised and lowered, and that it is off where it is.
pub proof fn bands_are_read_as_they_are(index: nat, band: EqBand)
    ensures
        band.enabled ==> band_text(index, band) == "Band "@ + decimal(index + 1) + " · "@
            + long_name(band.shape) + " · "@ + frequency_text(band.frequency),
        !band.enabled ==> band_text(index, band) == "Band "@ + decimal(index + 1) + " · "@
            + long_name(band.shape) + " · "@ + frequency_text(band.frequency) + " · off"@,
        band.shape is Bell || band.shape is LowShelf || band.shape is HighShelf ==> node_text(
            index,
            band,
        ) == decimal(index + 1) + "  "@ + frequency_text(band.frequency) + "  "@ + gain_text(
            band.gain as int,
        ) + "  Q "@ + fixed(band.q as nat, 1_000, 2, Precision::Single),
        band.shape is HighPass || band.shape is LowPass || band.shape is Notch ==> node_text(
            index,
            band,
        ) == decimal(index + 1) + "  "@ + frequency_text(band.frequency) + "  Q "@ + fixed(
            band.q as nat,
            1_000,
            2,
            Precision::Single,
        ),
{
    reveal_strlit("");
    let start = "Band "@ + decimal(index + 1) + " · "@ + long_name(band.shape) + " · "@
        + frequency_text(band.frequency);
    assert(start + ""@ =~= start);
    let head = decimal(index + 1) + "  "@ + frequency_text(band.frequency);
    assert(head + Seq::<char>::empty() =~= head);
    assert(head + ("  "@ + gain_text(band.gain as int)) =~= head + "  "@ + gain_text(
        band.gain as int,
    ));
}

/// The graph has lines at one, two and five of every power of ten from 20 hertz to 20 kilohertz,
/// up to where it ends; a narrow one leaves every second out.
pub proof fn lines_stand_at_round_frequencies(top: u32, narrow: bool, line: int)
    requires
        0 <= line < 10,
    ensures
        ({
            let frequency = grid_lines()[line].0;
            &&& frequency == 20 || frequency == 50 || frequency == 100 || frequency == 200
                || frequency == 500 || frequency == 1_000 || frequency == 2_000 || frequency
                == 5_000 || frequency == 10_000 || frequency == 20_000
            &&& line < 9 ==> grid_lines()[line + 1].0 > frequency
            &&& !narrow ==> (drawn(frequency, top, narrow) <==> 1_000 * frequency <= top)
            &&& narrow ==> (drawn(frequency, top, narrow) <==> 1_000 * frequency <= top && (
            frequency == 20 || frequency == 100 || frequency == 500 || frequency == 2_000
                || frequency == 10_000))
            &&& drawn(frequency, top, narrow) ==> drawn_lines(top, narrow, 10).contains(
                grid_lines()[line],
            )
        }),
        grid_lines().len() == 10,
        forall|i: int|
            0 <= i < drawn_lines(top, narrow, 10).len() ==> drawn(
                (#[trigger] drawn_lines(top, narrow, 10)[i]).0,
                top,
                narrow,
            ),
{
    lemma_lines(top, narrow, 10, line);
}

proof fn lemma_lines(top: u32, narrow: bool, count: nat, line: int)
    requires
        0 <= line,
    ensures
        line < count && drawn(grid_lines()[line].0, top, narrow) ==> drawn_lines(
            top,
            narrow,
            count,
        ).contains(grid_lines()[line]),
        forall|i: int|
            0 <= i < drawn_lines(top, narrow, count).len() ==> drawn(
                (#[trigger] drawn_lines(top, narrow, count)[i]).0,
                top,
                narrow,
            ),
    decreases count,
{
    if count > 0 {
        let less = (count - 1) as nat;
        lemma_lines(top, narrow, less, line);
        let before = drawn_lines(top, narrow, less);
        let after = drawn_lines(top, narrow, count);
        if line < less && drawn(grid_lines()[line].0, top, narrow) {
            let i = choose|i: int| 0 <= i < before.len() && before[i] == grid_lines()[line];
            assert(after[i] == grid_lines()[line]);
        }
        if line == less && drawn(grid_lines()[line].0, top, narrow) {
            assert(after[before.len() as int] == grid_lines()[line]);
        }
    }
}

/// A field that is put out of the range of a band rests at its end.
pub proof fn fields_rest_at_the_ends_of_their_range(
    state: EqEditorState,
    settings: EqModel,
    fresh: EqBand,
    top: u32,
    frequency: u32,
    gain: i32,
    q: u32,
)
    requires
        state.selected < settings.bands.len(),
        10_000 <= top,
    ensures
        ({
            let place = state.selected as int;
            let shape = settings.bands[place].shape;
            let lifted = shape is Bell || shape is LowShelf || shape is HighShelf;
            let high = settings_after(
                state,
                settings,
                EqEvent::Frequency(frequency),
                fresh,
                top,
            ).bands[place].frequency;
            let loud = settings_after(state, settings, EqEvent::Gain(gain), fresh, top).bands[place].gain;
            let wide = settings_after(state, settings, EqEvent::Q(q), fresh, top).bands[place].q;
            let output = settings_after(
                state,
                settings,
                EqEvent::OutputGain(gain),
                fresh,
                top,
            ).output_gain;
            &&& frequency < 10_000 ==> high == 10_000
            &&& frequency > top ==> high == top
            &&& lifted && gain > 24_000 ==> loud == 24_000
            &&& lifted && gain < -24_000 ==> loud == -24_000
            &&& q < 100 ==> wide == 100
            &&& q > 30_000 ==> wide == 30_000
            &&& gain > 24_000 ==> output == 24_000
            &&& gain < -24_000 ==> output == -24_000
        }),
{
}

/// An event asks for what it does and nothing more: holding a field begins a step of the history,
/// letting go ends it, and a change of the settings is told as one.
pub proof fn events_ask_for_what_they_do(
    state: EqEditorState,
    settings: EqModel,
    fresh: EqBand,
    top: u32,
    index: usize,
    gain: i32,
)
    ensures
        ({
            let held = outcome_of(state, settings, EqEvent::HoldField, fresh, top);
            let freed = outcome_of(state, settings, EqEvent::Release, fresh, top);
            let pressed = outcome_of(state, settings, EqEvent::Press(Some(index)), fresh, top);
            let missed = outcome_of(state, settings, EqEvent::Press(None), fresh, top);
            let removed = outcome_of(state, settings, EqEvent::Remove(index), fresh, top);
            let passed = outcome_of(state, settings, EqEvent::Bypass, fresh, top);
            let event = EqEvent::OutputGain(gain);
            let turned = outcome_of(state, settings, event, fresh, top);
            &&& held.begin && !held.changed && !held.end && held.remove is None && !held.bypass
            &&& !freed.begin && !freed.changed && freed.end && freed.remove is None && !freed.bypass
            &&& pressed.begin <==> index < settings.bands.len()
            &&& !pressed.changed && !pressed.end && pressed.remove is None && !pressed.bypass
            &&& !missed.begin && !missed.end && missed.remove is None
            &&& index >= settings.bands.len() ==> removed.remove is None
            &&& !removed.begin && !removed.end
            &&& passed.bypass && !passed.begin && !passed.end && !passed.changed
            &&& turned.changed <==> settings_after(state, settings, event, fresh, top) != settings
            &&& !turned.begin && !turned.end && turned.remove is None && !turned.bypass
        }),
{
}

/// A click or a press beside every point takes hold of none, and one that names no band selects
/// none.
pub proof fn clicks_beside_points_hold_nothing(
    state: EqEditorState,
    bands: Seq<EqBand>,
    fresh: EqBand,
    top: u32,
    index: usize,
)
    requires
        state.selected < bands.len(),
    ensures
        state_after(state, bands, EqEvent::Press(None), fresh, top).drag_band is None,
        state_after(state, bands, EqEvent::Press(None), fresh, top).selected == state.selected,
        index >= bands.len() ==> state_after(
            state,
            bands,
            EqEvent::Press(Some(index)),
            fresh,
            top,
        ).drag_band is None,
        index >= bands.len() ==> state_after(
            state,
            bands,
            EqEvent::Remove(index),
            fresh,
            top,
        ).selected == state.selected,
        state_after(state, bands, EqEvent::Release, fresh, top).selected == state.selected,
{
}

} // verus!
