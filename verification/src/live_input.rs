//! The chain of effects between the live input and the headphones, its delays, and the
//! bass tuner.
//!
//! Mixes are counted in thousandths, look-ahead times in microseconds, detunings in
//! thousandths of a cent, frequencies in millionths of a hertz.
use crate::numbers::{
    fixed, push_fixed, push_large_fixed, to_whole_float, whole_float, Precision,
};
use crate::text::{decimal, push_decimal};
use crate::transport::clamped;
use vstd::prelude::*;

verus! {

/// How a pitch is shifted.
#[derive(Clone, Copy, Debug, PartialEq, Eq, Structural)]
pub enum PitchQuality {
    Draft,
    Signalsmith,
}

/// What an effect does, as far as it delays the sound.
#[derive(Clone, Copy, Debug, PartialEq, Eq, Structural)]
pub enum LiveKind {
    PitchShift { quality: PitchQuality, mix: u32, semitones: i8, cents: i8 },
    Compressor { lookahead: u32 },
    Limiter { lookahead: u32 },
    Other,
}

/// An effect of the chain. `S` holds the settings that do not delay the sound.
#[derive(Debug)]
pub struct LiveEffect<S> {
    pub id: u128,
    pub enabled: bool,
    pub kind: LiveKind,
    pub settings: S,
}

/// An effect that could answer faster.
pub open spec fn slower(enabled: bool, kind: LiveKind) -> bool {
    enabled && match kind {
        LiveKind::PitchShift { quality, mix, semitones, cents } => quality is Signalsmith && mix > 0
            && semitones as int * 100 + cents as int != 0,
        LiveKind::Compressor { lookahead } => lookahead > 0,
        LiveKind::Limiter { lookahead } => lookahead > 0,
        LiveKind::Other => false,
    }
}

/// An effect that answers as fast as it can.
pub open spec fn faster(enabled: bool, kind: LiveKind) -> LiveKind {
    if !enabled {
        kind
    } else {
        match kind {
            LiveKind::PitchShift { quality, mix, semitones, cents } => LiveKind::PitchShift {
                quality: PitchQuality::Draft,
                mix,
                semitones,
                cents,
            },
            LiveKind::Compressor { .. } => LiveKind::Compressor { lookahead: 0 },
            LiveKind::Limiter { .. } => LiveKind::Limiter { lookahead: 0 },
            LiveKind::Other => kind,
        }
    }
}

impl<S> LiveEffect<S> {
    /// Whether the effect could answer faster.
    pub fn has_slower_live_settings(&self) -> (yes: bool)
        ensures
            yes == slower(self.enabled, self.kind),
    {
        if !self.enabled {
            return false;
        }
        match self.kind {
            LiveKind::PitchShift { quality, mix, semitones, cents } => {
                let detuned: i32 = semitones as i32 * 100 + cents as i32;
                quality == PitchQuality::Signalsmith && mix > 0 && detuned != 0
            },
            LiveKind::Compressor { lookahead } => lookahead > 0,
            LiveKind::Limiter { lookahead } => lookahead > 0,
            LiveKind::Other => false,
        }
    }

    /// Makes an effect that is on answer as fast as it can.
    pub fn reduce_effect_latency(&mut self)
        ensures
            final(self).kind == faster(old(self).enabled, old(self).kind),
            final(self).id == old(self).id,
            final(self).enabled == old(self).enabled,
            final(self).settings == old(self).settings,
    {
        if !self.enabled {
            return;
        }
        self.kind = match self.kind {
            LiveKind::PitchShift { quality: _, mix, semitones, cents } => LiveKind::PitchShift {
                quality: PitchQuality::Draft,
                mix,
                semitones,
                cents,
            },
            LiveKind::Compressor { .. } => LiveKind::Compressor { lookahead: 0 },
            LiveKind::Limiter { .. } => LiveKind::Limiter { lookahead: 0 },
            LiveKind::Other => LiveKind::Other,
        };
    }
}

/// Whether any effect of a chain could answer faster.
pub fn offers_faster<S>(effects: &Vec<LiveEffect<S>>) -> (yes: bool)
    ensures
        yes == exists|i: int|
            0 <= i < effects@.len() && slower(
                (#[trigger] effects@[i]).enabled,
                effects@[i].kind,
            ),
{
    let mut index: usize = 0;
    while index < effects.len()
        invariant
            index <= effects.len(),
            forall|i: int|
                0 <= i < index ==> !slower((#[trigger] effects@[i]).enabled, effects@[i].kind),
        decreases effects.len() - index,
    {
        if effects[index].has_slower_live_settings() {
            assert(slower(effects@[index as int].enabled, effects@[index as int].kind));
            return true;
        }
        index += 1;
    }
    false
}

/// Makes every effect of a chain that is on answer as fast as it can.
pub fn reduce_latency<S>(effects: &mut Vec<LiveEffect<S>>)
    ensures
        final(effects)@.len() == old(effects)@.len(),
        forall|i: int|
            0 <= i < old(effects)@.len() ==> {
                &&& (#[trigger] final(effects)@[i]).kind == faster(
                    old(effects)@[i].enabled,
                    old(effects)@[i].kind,
                )
                &&& final(effects)@[i].id == old(effects)@[i].id
                &&& final(effects)@[i].enabled == old(effects)@[i].enabled
                &&& final(effects)@[i].settings == old(effects)@[i].settings
                &&& !slower(final(effects)@[i].enabled, final(effects)@[i].kind)
            },
{
    let ghost before = effects@;
    let mut index: usize = 0;
    while index < effects.len()
        invariant
            index <= effects.len(),
            effects@.len() == before.len(),
            forall|i: int|
                0 <= i < index ==> {
                    &&& (#[trigger] effects@[i]).kind == faster(before[i].enabled, before[i].kind)
                    &&& effects@[i].id == before[i].id
                    &&& effects@[i].enabled == before[i].enabled
                    &&& effects@[i].settings == before[i].settings
                },
            forall|i: int| index <= i < before.len() ==> effects@[i] == before[i],
        decreases effects.len() - index,
    {
        effects[index].reduce_effect_latency();
        index += 1;
    }
}

/// A change of the order of a chain.
#[derive(Clone, Copy, Debug, PartialEq, Eq, Structural)]
pub enum ChainAction {
    Move(usize, usize),
    Remove(usize),
}

/// A chain after a change; one that names a place that is not there changes nothing.
pub open spec fn chain_after<T>(effects: Seq<T>, action: ChainAction) -> Seq<T> {
    match action {
        ChainAction::Move(from, to) => if from < effects.len() && to < effects.len() {
            effects.remove(from as int).insert(to as int, effects[from as int])
        } else {
            effects
        },
        ChainAction::Remove(index) => if index < effects.len() {
            effects.remove(index as int)
        } else {
            effects
        },
    }
}

/// Changes the order of a chain.
pub fn apply_chain_action<T>(effects: &mut Vec<T>, action: ChainAction)
    ensures
        final(effects)@ == chain_after(old(effects)@, action),
{
    match action {
        ChainAction::Move(from, to) => {
            if from < effects.len() && to < effects.len() {
                let effect = effects.remove(from);
                effects.insert(to, effect);
            }
        },
        ChainAction::Remove(index) => {
            if index < effects.len() {
                effects.remove(index);
            }
        },
    }
}

/// What came of setting a parameter on a copy of an effect.
#[derive(Debug)]
pub enum ParameterAttempt<T> {
    /// There is no such parameter, or it cannot have such a value.
    Unknown,
    /// The effect would not be valid.
    Invalid(String),
    Changed(T),
}

/// Takes over a change of an effect, or keeps the effect and says why.
pub fn set_live_parameter<T>(effect: &mut T, attempt: ParameterAttempt<T>) -> (result: Result<
    (),
    String,
>)
    ensures
        match attempt {
            ParameterAttempt::Unknown => *final(effect) == *old(effect) && (result matches Err(
                error,
            ) && error@ == "That parameter value could not be applied."@),
            ParameterAttempt::Invalid(reason) => *final(effect) == *old(effect) && result == Err::<
                (),
                String,
            >(reason),
            ParameterAttempt::Changed(updated) => *final(effect) == updated && result is Ok,
        },
{
    match attempt {
        ParameterAttempt::Unknown => Err(
            String::from_str("That parameter value could not be applied."),
        ),
        ParameterAttempt::Invalid(reason) => Err(reason),
        ParameterAttempt::Changed(updated) => {
            *effect = updated;
            Ok(())
        },
    }
}

/// What a processor of the catalog is: an effect, or one that only shows what it hears.
#[derive(Clone, Copy, Debug, PartialEq, Eq, Structural)]
pub enum CatalogKind {
    Effect(LiveKind),
    Analyzer,
}

/// A processor that the program brings along, as it is before anything is changed.
#[derive(Clone, Copy, Debug)]
pub struct CatalogEntry<S> {
    pub kind: CatalogKind,
    pub settings: S,
}

/// Whether the catalog has an effect at a place. Analyzers are none.
pub open spec fn offers<S>(catalog: Seq<CatalogEntry<S>>, place: int) -> bool {
    0 <= place < catalog.len() && catalog[place].kind is Effect
}

/// The places of the effects that can be added, in the order of the catalog.
pub fn offered_effects<S>(catalog: &Vec<CatalogEntry<S>>) -> (places: Vec<usize>)
    ensures
        forall|i: int, j: int| 0 <= i < j < places@.len() ==> places@[i] < places@[j],
        forall|i: int| 0 <= i < places@.len() ==> offers(catalog@, #[trigger] places@[i] as int),
        forall|place: int| #[trigger]
            offers(catalog@, place) ==> places@.contains(place as usize),
{
    let mut places: Vec<usize> = Vec::new();
    let mut index: usize = 0;
    while index < catalog.len()
        invariant
            index <= catalog.len(),
            forall|i: int, j: int| 0 <= i < j < places@.len() ==> places@[i] < places@[j],
            forall|i: int|
                0 <= i < places@.len() ==> #[trigger] places@[i] < index && offers(
                    catalog@,
                    places@[i] as int,
                ),
            forall|place: int|
                place < index && #[trigger] offers(catalog@, place) ==> places@.contains(
                    place as usize,
                ),
        decreases catalog.len() - index,
    {
        let ghost before = places@;
        if let CatalogKind::Effect(_) = catalog[index].kind {
            places.push(index);
            assert(places@[before.len() as int] == index);
        }
        assert forall|place: int|
            place < index + 1 && #[trigger] offers(catalog@, place) implies places@.contains(
            place as usize,
        ) by {
            if place < index {
                let i = choose|i: int| 0 <= i < before.len() && before[i] == place as usize;
                assert(places@[i] == place as usize);
            }
        }
        index += 1;
    }
    places
}

/// What the user does with the chain.
#[derive(Debug)]
pub enum ChainEvent<S> {
    Bypass(bool),
    /// Add the effect at a place of the catalog, under a new id.
    Add { place: usize, id: u128 },
    /// Turn an effect on or off.
    Enable(usize, bool),
    Earlier(usize),
    Later(usize),
    Remove(usize),
    Parameter(usize, ParameterAttempt<LiveEffect<S>>),
}

/// The chain, and the last parameter that could not be set.
#[derive(Debug)]
pub struct LiveChain<S> {
    pub effects: Vec<LiveEffect<S>>,
    pub bypassed: bool,
    pub error: Option<String>,
}

/// Whether an effect is added: the catalog offers it, and the chain has room.
pub open spec fn is_added<S>(
    effects: Seq<LiveEffect<S>>,
    catalog: Seq<CatalogEntry<S>>,
    place: usize,
) -> bool {
    offers(catalog, place as int) && effects.len() < MAX_INPUT_EFFECTS
}

/// The effect at a place of the catalog, turned on.
pub open spec fn catalog_effect<S>(catalog: Seq<CatalogEntry<S>>, place: int, id: u128)
    -> LiveEffect<S> {
    LiveEffect {
        id,
        enabled: true,
        kind: catalog[place].kind->Effect_0,
        settings: catalog[place].settings,
    }
}

/// The chain after an event.
pub open spec fn effects_after<S>(
    effects: Seq<LiveEffect<S>>,
    catalog: Seq<CatalogEntry<S>>,
    event: ChainEvent<S>,
) -> Seq<LiveEffect<S>> {
    match event {
        ChainEvent::Bypass(_) => effects,
        ChainEvent::Add { place, id } => if is_added(effects, catalog, place) {
            effects.push(catalog_effect(catalog, place as int, id))
        } else {
            effects
        },
        ChainEvent::Enable(index, on) => if index < effects.len() {
            effects.update(index as int, LiveEffect { enabled: on, ..effects[index as int] })
        } else {
            effects
        },
        ChainEvent::Earlier(index) => if 0 < index < effects.len() {
            chain_after(effects, ChainAction::Move(index, (index - 1) as usize))
        } else {
            effects
        },
        ChainEvent::Later(index) => if index + 1 < effects.len() {
            chain_after(effects, ChainAction::Move(index, (index + 1) as usize))
        } else {
            effects
        },
        ChainEvent::Remove(index) => chain_after(effects, ChainAction::Remove(index)),
        ChainEvent::Parameter(index, attempt) => if index < effects.len() {
            match attempt {
                ParameterAttempt::Changed(updated) => effects.update(index as int, updated),
                _ => effects,
            }
        } else {
            effects
        },
    }
}

/// Whether an event clears the last error: it changed the chain.
pub open spec fn clears_error<S>(
    effects: Seq<LiveEffect<S>>,
    catalog: Seq<CatalogEntry<S>>,
    event: ChainEvent<S>,
) -> bool {
    match event {
        ChainEvent::Add { place, .. } => is_added(effects, catalog, place),
        ChainEvent::Earlier(index) => 0 < index < effects.len(),
        ChainEvent::Later(index) => index + 1 < effects.len(),
        ChainEvent::Remove(index) => index < effects.len(),
        ChainEvent::Parameter(index, attempt) => index < effects.len() && attempt is Changed,
        _ => false,
    }
}

impl<S: Copy> LiveChain<S> {
    /// Performs an event on the chain.
    pub fn chain_contents(&mut self, catalog: &Vec<CatalogEntry<S>>, event: ChainEvent<S>)
        ensures
            final(self).effects@ == effects_after(old(self).effects@, catalog@, event),
            final(self).bypassed == match event {
                ChainEvent::Bypass(on) => on,
                _ => old(self).bypassed,
            },
            clears_error(old(self).effects@, catalog@, event) ==> final(self).error is None,
            match event {
                ChainEvent::Parameter(index, attempt) => if index < old(self).effects@.len() {
                    match attempt {
                        ParameterAttempt::Unknown => final(self).error matches Some(error)
                            && error@ == "That parameter value could not be applied."@,
                        ParameterAttempt::Invalid(reason) => final(self).error == Some(reason),
                        ParameterAttempt::Changed(_) => final(self).error is None,
                    }
                } else {
                    final(self).error == old(self).error
                },
                _ => clears_error(old(self).effects@, catalog@, event) || final(self).error
                    == old(self).error,
            },
    {
        let count: usize = self.effects.len();
        match event {
            ChainEvent::Bypass(on) => {
                self.bypassed = on;
            },
            ChainEvent::Add { place, id } => {
                if place < catalog.len() && count < MAX_INPUT_EFFECTS {
                    if let CatalogKind::Effect(kind) = catalog[place].kind {
                        let settings = catalog[place].settings;
                        self.effects.push(LiveEffect { id, enabled: true, kind, settings });
                        self.error = None;
                    }
                }
            },
            ChainEvent::Enable(index, on) => {
                if index < count {
                    self.effects[index].enabled = on;
                }
            },
            ChainEvent::Earlier(index) => {
                if 0 < index && index < count {
                    apply_chain_action(&mut self.effects, ChainAction::Move(index, index - 1));
                    self.error = None;
                }
            },
            ChainEvent::Later(index) => {
                if count > 0 && index < count - 1 {
                    apply_chain_action(&mut self.effects, ChainAction::Move(index, index + 1));
                    self.error = None;
                }
            },
            ChainEvent::Remove(index) => {
                if index < count {
                    apply_chain_action(&mut self.effects, ChainAction::Remove(index));
                    self.error = None;
                }
            },
            ChainEvent::Parameter(index, attempt) => {
                if index < count {
                    match attempt {
                        ParameterAttempt::Unknown => {
                            self.error = Some(
                                String::from_str("That parameter value could not be applied."),
                            );
                        },
                        ParameterAttempt::Invalid(reason) => {
                            self.error = Some(reason);
                        },
                        ParameterAttempt::Changed(updated) => {
                            self.effects[index] = updated;
                            self.error = None;
                        },
                    }
                }
            },
        }
    }
}

impl<S> LiveChain<S> {
    /// How many effects there are, of how many.
    pub fn count_text(&self) -> (text: String)
        ensures
            text@ == decimal(self.effects@.len()) + "/"@ + decimal(MAX_INPUT_EFFECTS as nat),
    {
        let mut text = String::new();
        push_decimal(&mut text, self.effects.len() as u64);
        text.append("/");
        push_decimal(&mut text, MAX_INPUT_EFFECTS as u64);
        assert(text@ =~= decimal(self.effects@.len()) + "/"@ + decimal(MAX_INPUT_EFFECTS as nat));
        text
    }
}

/// What the window of the chain says of the monitor.
pub fn monitor_remark(connected: bool, enabled: bool, opening: bool) -> (text: Option<&'static str>)
    ensures
        match text {
            Some(text) => if !connected || !enabled {
                text@ == "Monitor is off. Turn it on to hear this chain."@
            } else {
                opening && text@ == "Opening input…"@
            },
            None => connected && enabled && !opening,
        },
{
    if !connected || !enabled {
        Some("Monitor is off. Turn it on to hear this chain.")
    } else if opening {
        Some("Opening input…")
    } else {
        None
    }
}

/// The buffers that can be chosen.
pub open spec fn buffer_name(frames: Option<u32>) -> Option<Seq<char>> {
    match frames {
        None => Some("AUTO"@),
        Some(frames) => if frames == 64 {
            Some("64 · FAST"@)
        } else if frames == 128 {
            Some("128"@)
        } else if frames == 256 {
            Some("256"@)
        } else {
            None
        },
    }
}

/// The text of a buffer that can be chosen.
pub fn buffer_label(frames: Option<u32>) -> (label: Option<&'static str>)
    ensures
        match label {
            Some(label) => buffer_name(frames) == Some(label@),
            None => buffer_name(frames) is None,
        },
{
    match frames {
        None => Some("AUTO"),
        Some(64) => Some("64 · FAST"),
        Some(128) => Some("128"),
        Some(256) => Some("256"),
        Some(_) => None,
    }
}

/// The delays of the input, in frames of the output.
#[derive(Clone, Copy, Debug)]
pub struct LatencyStatus {
    pub sample_rate: u32,
    pub input_callback: u64,
    pub output_buffer: Option<u32>,
    pub queued: u64,
    pub effects: u64,
    pub dropped: u64,
    pub underrun: u64,
}

/// The effects that a chain for the input holds at most.
pub const MAX_INPUT_EFFECTS: usize = 16;

/// A number of frames in milliseconds, as floating-point numbers of 53 digits come to it:
/// rounded at each step.
pub open spec fn millis(frames: nat, sample_rate: nat) -> Seq<char> {
    let scaled = whole_float(whole_float(frames) * 1_000);
    if sample_rate > 0 {
        fixed(scaled, sample_rate, 2, Precision::Double)
    } else if frames > 0 {
        "inf"@
    } else {
        "NaN"@
    }
}

/// The delays in a line; those that were not observed are dashes.
pub open spec fn latency_text(status: LatencyStatus) -> Seq<char> {
    let rate = status.sample_rate as nat;
    "Callbacks: in "@ + (if status.input_callback > 0 {
        millis(status.input_callback as nat, rate)
    } else {
        "—"@
    }) + " / out "@ + (match status.output_buffer {
        Some(frames) => millis(frames as nat, rate),
        None => "—"@,
    }) + " ms · Queue "@ + millis(status.queued as nat, rate) + " ms · FX "@ + millis(
        status.effects as nat,
        rate,
    ) + " ms"@
}

fn push_millis(text: &mut String, frames: u64, sample_rate: u32)
    ensures
        final(text)@ == old(text)@ + millis(frames as nat, sample_rate as nat),
{
    if sample_rate > 0 {
        let scaled: u128 = to_whole_float(to_whole_float(frames as u128) * 1_000);
        push_large_fixed(text, scaled, sample_rate as u64, 2, Precision::Double);
    } else if frames > 0 {
        text.append("inf");
    } else {
        text.append("NaN");
    }
}

impl LatencyStatus {
    /// The delays in a line.
    pub fn text(&self) -> (text: String)
        ensures
            text@ == latency_text(*self),
    {
        let mut text = String::from_str("Callbacks: in ");
        if self.input_callback > 0 {
            push_millis(&mut text, self.input_callback, self.sample_rate);
        } else {
            text.append("—");
        }
        text.append(" / out ");
        match self.output_buffer {
            Some(frames) => push_millis(&mut text, frames as u64, self.sample_rate),
            None => text.append("—"),
        }
        text.append(" ms · Queue ");
        push_millis(&mut text, self.queued, self.sample_rate);
        text.append(" ms · FX ");
        push_millis(&mut text, self.effects, self.sample_rate);
        text.append(" ms");
        assert(text@ =~= latency_text(*self));
        text
    }

    /// The frames that the queue lost, in a line, if it lost any.
    pub fn recovery_text(&self) -> (text: Option<String>)
        ensures
            match text {
                Some(text) => (self.dropped > 0 || self.underrun > 0) && text@
                    == "Queue recovery: "@ + decimal(self.dropped as nat) + " skipped / "@
                    + decimal(self.underrun as nat) + " missing frames"@,
                None => self.dropped == 0 && self.underrun == 0,
            },
    {
        if self.dropped == 0 && self.underrun == 0 {
            return None;
        }
        let mut text = String::from_str("Queue recovery: ");
        push_decimal(&mut text, self.dropped);
        text.append(" skipped / ");
        push_decimal(&mut text, self.underrun);
        text.append(" missing frames");
        assert(text@ =~= "Queue recovery: "@ + decimal(self.dropped as nat) + " skipped / "@
            + decimal(self.underrun as nat) + " missing frames"@);
        Some(text)
    }
}

/// Detuning that counts as none.
pub const IN_TUNE: i32 = 5_000;

/// The strings of a bass, from the lowest.
pub open spec fn string_name(index: int) -> Seq<char> {
    if index == 0 {
        "E1"@
    } else if index == 1 {
        "A1"@
    } else if index == 2 {
        "D2"@
    } else {
        "G2"@
    }
}

/// The name of a string of a bass.
pub fn string_label(index: usize) -> (label: &'static str)
    requires
        index < 4,
    ensures
        label@ == string_name(index as int),
{
    match index {
        0 => "E1",
        1 => "A1",
        2 => "D2",
        _ => "G2",
    }
}

/// Whether a string is in tune.
pub open spec fn in_tune(cents: int) -> bool {
    -IN_TUNE <= cents <= IN_TUNE
}

/// What the tuner tells the player.
pub open spec fn guidance_text(cents: Option<i32>, opening: bool) -> Seq<char> {
    match cents {
        None => if opening {
            "Opening input…"@
        } else {
            "Play one open string at a time"@
        },
        Some(cents) => if in_tune(cents as int) {
            "IN TUNE"@
        } else if cents < 0 {
            "FLAT · Tighten the string"@
        } else {
            "SHARP · Loosen the string"@
        },
    }
}

/// What the tuner tells the player, from how far the string it hears is off.
pub fn guidance(cents: Option<i32>, opening: bool) -> (text: &'static str)
    ensures
        text@ == guidance_text(cents, opening),
{
    match cents {
        None => if opening {
            "Opening input…"
        } else {
            "Play one open string at a time"
        },
        Some(cents) => if -IN_TUNE <= cents && cents <= IN_TUNE {
            "IN TUNE"
        } else if cents < 0 {
            "FLAT · Tighten the string"
        } else {
            "SHARP · Loosen the string"
        },
    }
}

/// Where the needle stands, in thousandths of the scale, which spans a hundred cents.
pub open spec fn needle_place(cents: int) -> int {
    500 + clamped(cents, -50_000, 50_000) / 100
}

/// Where the needle stands, in thousandths of the scale.
pub fn needle(cents: i32) -> (place: i32)
    ensures
        place == needle_place(cents as int),
        0 <= place <= 1_000,
{
    let kept: i32 = if cents < -50_000 {
        -50_000
    } else if cents > 50_000 {
        50_000
    } else {
        cents
    };
    (kept + 50_000) / 100
}

/// The pitch of a string of a bass, as the tuner shows it.
pub fn string_pitch(index: usize) -> (text: &'static str)
    requires
        index < 4,
    ensures
        text@ == if index == 0 {
            "41.20 Hz"@
        } else if index == 1 {
            "55.00 Hz"@
        } else if index == 2 {
            "73.42 Hz"@
        } else {
            "98.00 Hz"@
        },
{
    match index {
        0 => "41.20 Hz",
        1 => "55.00 Hz",
        2 => "73.42 Hz",
        _ => "98.00 Hz",
    }
}

/// What the tuner hears: a string, and how far it is off.
#[derive(Clone, Copy, Debug, PartialEq, Eq, Structural)]
pub struct TunerReading {
    pub string: usize,
    pub cents: i32,
    pub frequency: u64,
}

/// What the tuner shows.
#[derive(Debug)]
pub struct TunerView {
    /// The string that is heard.
    pub active: Option<usize>,
    pub in_tune: bool,
    pub cents: String,
    pub frequency: String,
    /// Where the needle stands, if there is one.
    pub needle: Option<i32>,
    pub guidance: &'static str,
}

/// A detuning with its sign.
pub open spec fn cents_text(cents: int) -> Seq<char> {
    if cents < 0 {
        "-"@ + fixed((-cents) as nat, 1_000, 1, Precision::Single) + " cents"@
    } else {
        "+"@ + fixed(cents as nat, 1_000, 1, Precision::Single) + " cents"@
    }
}

/// What the tuner shows of what it hears.
pub fn tuner_contents(reading: Option<TunerReading>, opening: bool) -> (view: TunerView)
    ensures
        view.guidance@ == guidance_text(
            match reading {
                Some(reading) => Some(reading.cents),
                None => None,
            },
            opening,
        ),
        match reading {
            Some(reading) => {
                &&& view.active == Some(reading.string)
                &&& view.in_tune == in_tune(reading.cents as int)
                &&& view.cents@ == cents_text(reading.cents as int)
                &&& view.frequency@ == fixed(
                    reading.frequency as nat,
                    1_000_000,
                    2,
                    Precision::Single,
                ) + " Hz"@
                &&& view.needle matches Some(place) && place == needle_place(reading.cents as int)
            },
            None => {
                &&& view.active is None
                &&& !view.in_tune
                &&& view.cents@ == "— cents"@
                &&& view.frequency@ == "— Hz"@
                &&& view.needle is None
            },
        },
{
    match reading {
        Some(reading) => {
            let mut cents = String::new();
            let size: u64 = if reading.cents < 0 {
                cents.append("-");
                (-(reading.cents as i64)) as u64
            } else {
                cents.append("+");
                reading.cents as u64
            };
            push_fixed(&mut cents, size, 1_000, 1, Precision::Single);
            cents.append(" cents");
            assert(cents@ =~= cents_text(reading.cents as int));
            let mut frequency = String::new();
            push_fixed(&mut frequency, reading.frequency, 1_000_000, 2, Precision::Single);
            frequency.append(" Hz");
            assert(frequency@ =~= fixed(
                    reading.frequency as nat,
                    1_000_000,
                    2,
                    Precision::Single,
                ) + " Hz"@);
            TunerView {
                active: Some(reading.string),
                in_tune: -IN_TUNE <= reading.cents && reading.cents <= IN_TUNE,
                cents,
                frequency,
                needle: Some(needle(reading.cents)),
                guidance: guidance(Some(reading.cents), opening),
            }
        },
        None => TunerView {
            active: None,
            in_tune: false,
            cents: String::from_str("— cents"),
            frequency: String::from_str("— Hz"),
            needle: None,
            guidance: guidance(None, opening),
        },
    }
}

/// The device and the channel that the tuner listens to; channels are counted from one.
pub fn tuner_source(device: &str, channel: u16) -> (text: String)
    ensures
        text@ == device@ + " · Input "@ + decimal((channel + 1) as nat),
{
    let mut text = String::from_str(device);
    text.append(" · Input ");
    push_decimal(&mut text, channel as u64 + 1);
    assert(text@ =~= device@ + " · Input "@ + decimal((channel + 1) as nat));
    text
}

/// Whether the tuner stays open: only over a project, while its input is monitored.
pub fn tuner_stays_open(open: bool, connected: bool, monitoring: bool) -> (stays: bool)
    ensures
        stays == (open && connected && monitoring),
{
    open && connected && monitoring
}

/// A chain never grows beyond what it may hold, and only by effects that the catalog offers:
/// an analyzer never joins it.
pub proof fn chains_stay_bounded<S>(
    effects: Seq<LiveEffect<S>>,
    catalog: Seq<CatalogEntry<S>>,
    event: ChainEvent<S>,
)
    requires
        effects.len() <= MAX_INPUT_EFFECTS,
    ensures
        effects_after(effects, catalog, event).len() <= MAX_INPUT_EFFECTS,
        effects_after(effects, catalog, event).len() > effects.len() ==> {
            &&& event matches ChainEvent::Add { place, id } && offers(catalog, place as int)
                && !(catalog[place as int].kind is Analyzer) && effects_after(
                effects,
                catalog,
                event,
            ) == effects.push(catalog_effect(catalog, place as int, id))
        },
{
}

/// Making an effect faster is enough: it then offers no faster setting.
pub proof fn faster_effects_offer_nothing_faster(enabled: bool, kind: LiveKind)
    ensures
        !slower(enabled, faster(enabled, kind)),
        faster(enabled, faster(enabled, kind)) == faster(enabled, kind),
{
}

/// Whatever is moved in a chain, the same effects stay, and only a removed one leaves.
pub proof fn reordering_keeps_every_effect<T>(effects: Seq<T>, action: ChainAction)
    ensures
        action is Move ==> chain_after(effects, action).to_multiset() == effects.to_multiset(),
        action matches ChainAction::Remove(index) ==> index < effects.len() ==> chain_after(
            effects,
            action,
        ).to_multiset() == effects.to_multiset().remove(effects[index as int]),
{
    effects.to_multiset_ensures();
    match action {
        ChainAction::Move(from, to) => {
            if from < effects.len() && to < effects.len() {
                let moved = effects[from as int];
                let rest = effects.remove(from as int);
                let after = chain_after(effects, action);
                after.to_multiset_ensures();
                assert(after[to as int] == moved);
                assert(after.remove(to as int) =~= rest);
                assert(effects.contains(moved) && after.contains(moved));
                assert(effects.to_multiset() =~= rest.to_multiset().insert(moved));
                assert(after.to_multiset() =~= rest.to_multiset().insert(moved));
            }
        },
        ChainAction::Remove(_) => {},
    }
}

/// An effect is slow to hear where it is on and looks ahead, or shifts the pitch at all with care;
/// a faster one looks no further ahead, shifts the pitch as much, and is left alone where it is
/// off.
pub proof fn faster_effects_do_the_same_sooner(
    enabled: bool,
    kind: LiveKind,
    lookahead: u32,
    quality: PitchQuality,
    mix: u32,
    semitones: i8,
    cents: i8,
)
    ensures
        !slower(false, kind),
        faster(false, kind) == kind,
        slower(true, LiveKind::Compressor { lookahead }) <==> lookahead > 0,
        slower(true, LiveKind::Limiter { lookahead }) <==> lookahead > 0,
        !slower(true, LiveKind::Other),
        faster(true, LiveKind::Compressor { lookahead }) == (LiveKind::Compressor { lookahead: 0 }),
        faster(true, LiveKind::Limiter { lookahead }) == (LiveKind::Limiter { lookahead: 0 }),
        faster(enabled, LiveKind::Other) == LiveKind::Other,
        faster(true, LiveKind::PitchShift { quality, mix, semitones, cents }) == (
        LiveKind::PitchShift { quality: PitchQuality::Draft, mix, semitones, cents }),
        slower(true, LiveKind::PitchShift { quality, mix, semitones, cents }) <==> quality
            is Signalsmith && mix != 0 && 100 * semitones + cents != 0,
{
}

/// Moving an effect puts it where it was moved to, and the others keep their order; moving it
/// back undoes it.
pub proof fn moved_effects_stand_where_they_were_moved<T>(effects: Seq<T>, from: usize, to: usize)
    requires
        from < effects.len(),
        to < effects.len(),
    ensures
        ({
            let after = chain_after(effects, ChainAction::Move(from, to));
            &&& after.len() == effects.len()
            &&& after[to as int] == effects[from as int]
            &&& after.remove(to as int) == effects.remove(from as int)
            &&& chain_after(after, ChainAction::Move(to, from)) == effects
        }),
{
    let after = chain_after(effects, ChainAction::Move(from, to));
    let rest = effects.remove(from as int);
    assert(after.remove(to as int) =~= rest);
    assert(rest.insert(from as int, effects[from as int]) =~= effects);
}

/// Removing an effect leaves the others in their order.
pub proof fn removed_effects_leave_the_others<T>(effects: Seq<T>, index: usize)
    requires
        index < effects.len(),
    ensures
        ({
            let after = chain_after(effects, ChainAction::Remove(index));
            &&& after.len() == effects.len() - 1
            &&& forall|i: int| 0 <= i < index ==> #[trigger] after[i] == effects[i]
            &&& forall|i: int| index <= i < after.len() ==> #[trigger] after[i] == effects[i + 1]
        }),
{
}

/// An effect of the catalog is added last and on, under the id that it is given, up to the
/// sixteenth.
pub proof fn added_effects_come_last<S>(
    effects: Seq<LiveEffect<S>>,
    catalog: Seq<CatalogEntry<S>>,
    place: usize,
    id: u128,
    kind: LiveKind,
)
    requires
        place < catalog.len(),
        catalog[place as int].kind == CatalogKind::Effect(kind),
    ensures
        ({
            let after = effects_after(effects, catalog, ChainEvent::Add { place, id });
            let added = after.last();
            &&& effects.len() >= 16 ==> after == effects
            &&& effects.len() < 16 ==> {
                &&& after.drop_last() == effects && after.len() == effects.len() + 1
                &&& added.id == id && added.enabled && added.kind == kind && added.settings
                    == catalog[place as int].settings
            }
        }),
{
    let after = effects_after(effects, catalog, ChainEvent::Add { place, id });
    if effects.len() < 16 {
        assert(after.drop_last() =~= effects);
    }
}

/// An effect goes earlier or later by changing places with its neighbour; the first goes no
/// earlier and the last no later.
pub proof fn neighbours_change_places<S>(
    effects: Seq<LiveEffect<S>>,
    catalog: Seq<CatalogEntry<S>>,
    index: usize,
)
    requires
        index < effects.len() <= usize::MAX,
    ensures
        ({
            let earlier = effects_after(effects, catalog, ChainEvent::Earlier(index));
            let later = effects_after(effects, catalog, ChainEvent::Later(index));
            let last = effects.len() - 1;
            &&& index == 0 ==> earlier == effects
            &&& index > 0 ==> earlier.len() == effects.len() && earlier[index - 1]
                == effects[index as int] && earlier[index as int] == effects[index - 1] && forall|
                i: int,
            |
                0 <= i < effects.len() && i != index && i != index - 1 ==> #[trigger] earlier[i]
                    == effects[i]
            &&& index == last ==> later == effects
            &&& index < last ==> later.len() == effects.len() && later[index + 1]
                == effects[index as int] && later[index as int] == effects[index + 1] && forall|
                i: int,
            |
                0 <= i < effects.len() && i != index && i != index + 1 ==> #[trigger] later[i]
                    == effects[i]
        }),
{
}

/// An effect is turned on or off, removed, or becomes what was made of it; the bypass and an
/// attempt that failed change none.
pub proof fn chain_controls_do_what_they_say<S>(
    effects: Seq<LiveEffect<S>>,
    catalog: Seq<CatalogEntry<S>>,
    index: usize,
    on: bool,
    updated: LiveEffect<S>,
)
    requires
        index < effects.len(),
    ensures
        effects_after(effects, catalog, ChainEvent::Bypass(on)) == effects,
        effects_after(effects, catalog, ChainEvent::Enable(index, on)) == effects.update(
            index as int,
            LiveEffect { enabled: on, ..effects[index as int] },
        ),
        effects_after(effects, catalog, ChainEvent::Remove(index)) == effects.remove(index as int),
        effects_after(
            effects,
            catalog,
            ChainEvent::Parameter(index, ParameterAttempt::Changed(updated)),
        ) == effects.update(index as int, updated),
        effects_after(
            effects,
            catalog,
            ChainEvent::Parameter(index, ParameterAttempt::Unknown),
        ) == effects,
{
}

/// A string within five cents is in tune; a lower one is to be tightened, a higher one loosened.
pub proof fn guidance_brings_the_string_into_tune(cents: i32)
    ensures
        -5_000 <= cents <= 5_000 <==> guidance_text(Some(cents), false) == "IN TUNE"@,
        cents < -5_000 ==> guidance_text(Some(cents), false) == "FLAT · Tighten the string"@,
        cents > 5_000 ==> guidance_text(Some(cents), false) == "SHARP · Loosen the string"@,
{
    reveal_strlit("IN TUNE");
    reveal_strlit("FLAT · Tighten the string");
    reveal_strlit("SHARP · Loosen the string");
    assert("IN TUNE"@.len() == 7);
    assert("FLAT · Tighten the string"@.len() != 7);
    assert("SHARP · Loosen the string"@.len() != 7);
}

/// The needle stands in the middle for a string in tune, and a thousandth of the scale further to
/// the right for every tenth of a cent that it is too high, within half a semitone.
pub proof fn needles_stand_in_proportion(cents: int)
    ensures
        needle_place(0) == 500,
        -50_000 <= cents <= 50_000 ==> 100 * (needle_place(cents) - 500) <= cents < 100 * (
        needle_place(cents) - 500) + 100,
        cents >= 50_000 ==> needle_place(cents) == 1_000,
        cents <= -50_000 ==> needle_place(cents) == 0,
{
}

/// The strings of a bass are named from the lowest up, and buffers by their frames.
pub proof fn strings_and_buffers_are_named(frames: u32)
    ensures
        string_name(0) == "E1"@,
        string_name(1) == "A1"@,
        string_name(2) == "D2"@,
        string_name(3) == "G2"@,
        buffer_name(None) == Some("AUTO"@),
        buffer_name(Some(64)) == Some("64 · FAST"@),
        buffer_name(Some(128)) == Some("128"@),
        buffer_name(Some(256)) == Some("256"@),
        frames != 64 && frames != 128 && frames != 256 ==> buffer_name(Some(frames)) is None,
{
}

/// An error goes away exactly when the chain is changed, not when an effect or all of it is
/// switched.
pub proof fn changes_of_the_chain_clear_its_error<S>(
    effects: Seq<LiveEffect<S>>,
    catalog: Seq<CatalogEntry<S>>,
    index: usize,
    on: bool,
    updated: LiveEffect<S>,
    place: usize,
    id: u128,
)
    requires
        index < effects.len(),
    ensures
        !clears_error(effects, catalog, ChainEvent::Bypass(on)),
        !clears_error(effects, catalog, ChainEvent::Enable(index, on)),
        clears_error(effects, catalog, ChainEvent::Remove(index)),
        clears_error(
            effects,
            catalog,
            ChainEvent::Parameter(index, ParameterAttempt::Changed(updated)),
        ),
        !clears_error(
            effects,
            catalog,
            ChainEvent::Parameter(index, ParameterAttempt::Unknown),
        ),
        clears_error(effects, catalog, ChainEvent::Earlier(index)) <==> index != 0,
        clears_error(effects, catalog, ChainEvent::Later(index)) <==> index != effects.len() - 1,
        clears_error(effects, catalog, ChainEvent::Add { place, id }) ==> effects_after(
            effects,
            catalog,
            ChainEvent::Add { place, id },
        ).len() == effects.len() + 1,
{
}

/// Latency is told for the input, the output, the queue and the effects, each in milliseconds of
/// its frames; what is not known is left open.
pub proof fn latencies_are_told_in_order(status: LatencyStatus, frames: u32)
    requires
        status.input_callback > 0,
        status.output_buffer == Some(frames),
    ensures
        latency_text(status) == "Callbacks: in "@ + millis(
            status.input_callback as nat,
            status.sample_rate as nat,
        ) + " / out "@ + millis(frames as nat, status.sample_rate as nat) + " ms · Queue "@
            + millis(status.queued as nat, status.sample_rate as nat) + " ms · FX "@ + millis(
            status.effects as nat,
            status.sample_rate as nat,
        ) + " ms"@,
        status.sample_rate > 0 && frames <= 9_000_000 ==> millis(
            frames as nat,
            status.sample_rate as nat,
        ) == fixed(
            (1_000 * frames) as nat,
            status.sample_rate as nat,
            2,
            Precision::Double,
        ),
{
}

/// Without a sample rate any frames last for ever, and none at all for no time that has a number.
pub proof fn frames_need_a_rate(frames: nat)
    ensures
        frames > 0 ==> millis(frames, 0) == "inf"@,
        millis(0, 0) == "NaN"@,
{
}

/// Cents are read with their sign, to the tenth.
pub proof fn cents_are_read_with_their_sign(cents: int)
    ensures
        cents >= 0 ==> cents_text(cents) == "+"@ + fixed(
            cents as nat,
            1_000,
            1,
            Precision::Single,
        ) + " cents"@,
        cents > 0 ==> cents_text(-cents) == "-"@ + fixed(
            cents as nat,
            1_000,
            1,
            Precision::Single,
        ) + " cents"@,
{
}

} // verus!
