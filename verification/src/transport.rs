//! The bar at the top of the shell, and the pace at which the shell is redrawn.
use crate::clock::{
    format_playhead_time, format_position, millis_text, playhead_millis, position_text,
    TimeSignature,
};
use crate::intents::Intent;
use crate::numbers::rounded_even;
use crate::text::{decimal, push_decimal};
use vstd::prelude::*;

verus! {

/// The slowest tempo that the bar sets.
pub const SLOWEST_TEMPO: u32 = 40_000;

/// The fastest tempo that the bar sets.
pub const FASTEST_TEMPO: u32 = 240_000;

/// The longest step that the shell's own clock makes, in nanoseconds.
pub const LONGEST_STEP: u64 = 100_000_000;

/// What the bar shows.
#[derive(Clone, Copy, Debug)]
pub struct TransportView {
    pub playing: bool,
    pub recording: bool,
    pub loop_enabled: bool,
    pub metronome_enabled: bool,
    pub metronome_gain: u32,
    pub playhead: i64,
    pub tempo: u32,
    pub meter: TimeSignature,
    pub structure_lens: bool,
    /// A composition encloses the one that is shown.
    pub can_navigate_back: bool,
    /// How many compositions lead to the one that is shown.
    pub depth: usize,
    pub sound_ready: bool,
}

/// What the user does with the bar.
#[derive(Clone, Copy, Debug)]
pub enum TransportEvent {
    Back,
    Breadcrumb(usize),
    AgentPulse,
    Structure,
    Stop,
    Play,
    Record,
    Loop,
    Metronome,
    MetronomeGain(u32),
    Tempo(u32),
    Numerator(u8),
    Denominator(u8),
    ZoomIn,
    ZoomOut,
}

/// What the bar asks for.
#[derive(Clone, Copy, Debug, PartialEq, Eq, Structural)]
pub enum TransportAction {
    Apply(Intent),
    ZoomIn,
    ZoomOut,
}

/// A value kept between two others.
pub open spec fn clamped(value: int, low: int, high: int) -> int {
    if value < low {
        low
    } else if value > high {
        high
    } else {
        value
    }
}

/// A number of the bar kept between two others.
pub fn clamp(value: u32, low: u32, high: u32) -> (kept: u32)
    requires
        low <= high,
    ensures
        kept == clamped(value as int, low as int, high as int),
{
    if value < low {
        low
    } else if value > high {
        high
    } else {
        value
    }
}

/// The notes that can be a beat.
pub open spec fn offered_denominator(denominator: u8) -> bool {
    denominator == 1 || denominator == 2 || denominator == 4 || denominator == 8 || denominator
        == 16 || denominator == 32
}

/// What an event of the bar asks for. A field that is left as it was asks for nothing.
pub open spec fn transport_intent(view: TransportView, event: TransportEvent, now: u64) -> Option<
    TransportAction,
> {
    match event {
        TransportEvent::Back => if view.can_navigate_back {
            Some(TransportAction::Apply(Intent::Back))
        } else {
            None
        },
        TransportEvent::Breadcrumb(depth) => if depth < view.depth {
            Some(TransportAction::Apply(Intent::NavigateToDepth(depth)))
        } else {
            None
        },
        TransportEvent::AgentPulse => Some(
            TransportAction::Apply(Intent::SimulateAgentChange(now)),
        ),
        TransportEvent::Structure => Some(TransportAction::Apply(Intent::ToggleStructureLens)),
        TransportEvent::Stop => Some(TransportAction::Apply(Intent::Stop)),
        TransportEvent::Play => Some(TransportAction::Apply(Intent::TogglePlayback)),
        TransportEvent::Record => Some(TransportAction::Apply(Intent::ToggleRecording)),
        TransportEvent::Loop => Some(TransportAction::Apply(Intent::ToggleLoop)),
        TransportEvent::Metronome => Some(TransportAction::Apply(Intent::ToggleMetronome)),
        TransportEvent::MetronomeGain(gain) => {
            let kept = clamped(gain as int, 0, 1_000) as u32;
            if kept == view.metronome_gain {
                None
            } else {
                Some(TransportAction::Apply(Intent::SetMetronomeGain(kept)))
            }
        },
        TransportEvent::Tempo(tempo) => {
            let kept = clamped(tempo as int, SLOWEST_TEMPO as int, FASTEST_TEMPO as int) as u32;
            if kept == view.tempo {
                None
            } else {
                Some(TransportAction::Apply(Intent::SetBpm(kept)))
            }
        },
        TransportEvent::Numerator(numerator) => {
            let kept = clamped(numerator as int, 1, 32) as u8;
            if kept == view.meter.numerator {
                None
            } else {
                Some(
                    TransportAction::Apply(
                        Intent::SetTimeSignature {
                            numerator: kept,
                            denominator: view.meter.denominator,
                        },
                    ),
                )
            }
        },
        TransportEvent::Denominator(denominator) => if !offered_denominator(denominator)
            || denominator == view.meter.denominator {
            None
        } else {
            Some(
                TransportAction::Apply(
                    Intent::SetTimeSignature { numerator: view.meter.numerator, denominator },
                ),
            )
        },
        TransportEvent::ZoomIn => Some(TransportAction::ZoomIn),
        TransportEvent::ZoomOut => Some(TransportAction::ZoomOut),
    }
}

/// What an event of the bar asks for.
pub fn transport_bar(view: &TransportView, event: TransportEvent, now: u64) -> (action: Option<
    TransportAction,
>)
    ensures
        action == transport_intent(*view, event, now),
{
    match event {
        TransportEvent::Back => if view.can_navigate_back {
            Some(TransportAction::Apply(Intent::Back))
        } else {
            None
        },
        TransportEvent::Breadcrumb(depth) => if depth < view.depth {
            Some(TransportAction::Apply(Intent::NavigateToDepth(depth)))
        } else {
            None
        },
        TransportEvent::AgentPulse => Some(
            TransportAction::Apply(Intent::SimulateAgentChange(now)),
        ),
        TransportEvent::Structure => Some(TransportAction::Apply(Intent::ToggleStructureLens)),
        TransportEvent::Stop => Some(TransportAction::Apply(Intent::Stop)),
        TransportEvent::Play => Some(TransportAction::Apply(Intent::TogglePlayback)),
        TransportEvent::Record => Some(TransportAction::Apply(Intent::ToggleRecording)),
        TransportEvent::Loop => Some(TransportAction::Apply(Intent::ToggleLoop)),
        TransportEvent::Metronome => Some(TransportAction::Apply(Intent::ToggleMetronome)),
        TransportEvent::MetronomeGain(gain) => {
            let kept: u32 = clamp(gain, 0, 1_000);
            if kept == view.metronome_gain {
                None
            } else {
                Some(TransportAction::Apply(Intent::SetMetronomeGain(kept)))
            }
        },
        TransportEvent::Tempo(tempo) => {
            let kept: u32 = clamp(tempo, SLOWEST_TEMPO, FASTEST_TEMPO);
            if kept == view.tempo {
                None
            } else {
                Some(TransportAction::Apply(Intent::SetBpm(kept)))
            }
        },
        TransportEvent::Numerator(numerator) => {
            let kept: u8 = clamp(numerator as u32, 1, 32) as u8;
            if kept == view.meter.numerator {
                None
            } else {
                Some(
                    TransportAction::Apply(
                        Intent::SetTimeSignature {
                            numerator: kept,
                            denominator: view.meter.denominator,
                        },
                    ),
                )
            }
        },
        TransportEvent::Denominator(denominator) => {
            let offered = denominator == 1 || denominator == 2 || denominator == 4 || denominator
                == 8 || denominator == 16 || denominator == 32;
            if !offered || denominator == view.meter.denominator {
                None
            } else {
                Some(
                    TransportAction::Apply(
                        Intent::SetTimeSignature { numerator: view.meter.numerator, denominator },
                    ),
                )
            }
        },
        TransportEvent::ZoomIn => Some(TransportAction::ZoomIn),
        TransportEvent::ZoomOut => Some(TransportAction::ZoomOut),
    }
}

/// The texts of the bar.
#[derive(Debug)]
pub struct TransportLabels {
    pub sound: &'static str,
    pub sound_hint: &'static str,
    pub structure: &'static str,
    pub play: &'static str,
    pub position: String,
    pub time: String,
}

impl TransportView {
    /// The texts of the bar.
    pub fn labels(&self) -> (labels: TransportLabels)
        requires
            self.meter.valid(),
        ensures
            labels.sound@ == if self.sound_ready {
                "SOUND ●"@
            } else {
                "SOUND ○"@
            },
            labels.sound_hint@ == if self.sound_ready {
                "Project audio output is ready"@
            } else {
                "Project audio output is unavailable"@
            },
            labels.structure@ == if self.structure_lens {
                "STRUCTURE ON"@
            } else {
                "STRUCTURE"@
            },
            labels.play@ == if self.playing {
                "Ⅱ"@
            } else {
                "▶"@
            },
            labels.position@ == position_text(self.playhead as int, self.meter),
            labels.time@ == millis_text(
                playhead_millis(self.playhead as int, self.tempo as int) as nat,
            ),
    {
        TransportLabels {
            sound: if self.sound_ready {
                "SOUND ●"
            } else {
                "SOUND ○"
            },
            sound_hint: if self.sound_ready {
                "Project audio output is ready"
            } else {
                "Project audio output is unavailable"
            },
            structure: if self.structure_lens {
                "STRUCTURE ON"
            } else {
                "STRUCTURE"
            },
            play: if self.playing {
                "Ⅱ"
            } else {
                "▶"
            },
            position: format_position(self.playhead, self.meter),
            time: format_playhead_time(self.playhead, self.tempo),
        }
    }

    /// Whether a breadcrumb is that of the composition that is shown.
    pub fn is_current(&self, crumb: usize) -> (current: bool)
        requires
            crumb < self.depth,
        ensures
            current == (crumb + 1 == self.depth),
    {
        crumb + 1 == self.depth
    }
}

/// A scale of pixels to the beat in percent of the usual 32, to the nearest whole, the
/// even one of two. Pixels are counted in thousandths.
pub open spec fn zoom_percent(scale: int) -> int {
    rounded_even(scale, 320)
}

/// A number with spaces before it up to three places.
pub open spec fn three_places(value: nat) -> Seq<char> {
    if value < 10 {
        "  "@ + decimal(value)
    } else if value < 100 {
        " "@ + decimal(value)
    } else {
        decimal(value)
    }
}

/// The text of the zoom.
pub fn zoom_text(scale: u32) -> (text: String)
    ensures
        text@ == "ZOOM "@ + three_places(zoom_percent(scale as int) as nat) + "%"@,
{
    let whole: u32 = scale / 320;
    let rest: u32 = scale % 320;
    let percent: u32 = if rest > 160 || (rest == 160 && whole % 2 == 1) {
        whole + 1
    } else {
        whole
    };
    let mut text = String::from_str("ZOOM ");
    if percent < 10 {
        text.append("  ");
    } else if percent < 100 {
        text.append(" ");
    }
    push_decimal(&mut text, percent as u64);
    text.append("%");
    assert(text@ =~= "ZOOM "@ + three_places(percent as nat) + "%"@);
    text
}

/// How far the shell's own clock moves between two looks at it.
pub open spec fn step_between(last: Option<u64>, now: u64) -> int {
    match last {
        Some(last) => clamped(now - last, 0, LONGEST_STEP as int),
        None => 0,
    }
}

/// How far the shell's own clock moves between two looks at it: never back, and never far.
pub fn frame_step(last: Option<u64>, now: u64) -> (step: u64)
    ensures
        step == step_between(last, now),
{
    match last {
        Some(last) => if now <= last {
            0
        } else if now - last > LONGEST_STEP {
            LONGEST_STEP
        } else {
            now - last
        },
        None => 0,
    }
}

/// When the shell is drawn again, in milliseconds: soon while something moves, and now and
/// then while another thread may have news.
pub fn redraw_after(moving: bool, preview_playing: bool, connected: bool) -> (millis: Option<u64>)
    ensures
        millis == if moving || (connected && preview_playing) {
            Some(16u64)
        } else if connected {
            Some(50u64)
        } else {
            None
        },
{
    if moving || (connected && preview_playing) {
        Some(16)
    } else if connected {
        Some(50)
    } else {
        None
    }
}

/// Whatever the user does with the bar, the tempo and the meter it sets are in range.
pub proof fn bar_sets_valid_values(view: TransportView, event: TransportEvent, now: u64)
    requires
        view.meter.valid(),
    ensures
        transport_intent(view, event, now) matches Some(TransportAction::Apply(intent)) ==> {
            &&& intent matches Intent::SetBpm(tempo) ==> SLOWEST_TEMPO <= tempo <= FASTEST_TEMPO
            &&& intent matches Intent::SetMetronomeGain(gain) ==> gain <= 1_000
            &&& intent matches Intent::SetTimeSignature { numerator, denominator } ==> (
            TimeSignature { numerator, denominator }).valid()
            &&& intent matches Intent::NavigateToDepth(depth) ==> depth < view.depth
        },
{
}

/// Every control of the bar does what it is named after; a value that is already set is not set
/// again.
pub proof fn controls_do_what_they_say(
    view: TransportView,
    now: u64,
    value: u32,
    numerator: u8,
    denominator: u8,
    depth: usize,
)
    ensures
        transport_intent(view, TransportEvent::Play, now) == Some(
            TransportAction::Apply(Intent::TogglePlayback),
        ),
        transport_intent(view, TransportEvent::Stop, now) == Some(
            TransportAction::Apply(Intent::Stop),
        ),
        transport_intent(view, TransportEvent::Record, now) == Some(
            TransportAction::Apply(Intent::ToggleRecording),
        ),
        transport_intent(view, TransportEvent::Loop, now) == Some(
            TransportAction::Apply(Intent::ToggleLoop),
        ),
        transport_intent(view, TransportEvent::Metronome, now) == Some(
            TransportAction::Apply(Intent::ToggleMetronome),
        ),
        transport_intent(view, TransportEvent::Structure, now) == Some(
            TransportAction::Apply(Intent::ToggleStructureLens),
        ),
        transport_intent(view, TransportEvent::AgentPulse, now) == Some(
            TransportAction::Apply(Intent::SimulateAgentChange(now)),
        ),
        transport_intent(view, TransportEvent::ZoomIn, now) == Some(TransportAction::ZoomIn),
        transport_intent(view, TransportEvent::ZoomOut, now) == Some(TransportAction::ZoomOut),
        transport_intent(view, TransportEvent::Back, now) == if view.can_navigate_back {
            Some(TransportAction::Apply(Intent::Back))
        } else {
            None
        },
        transport_intent(view, TransportEvent::Breadcrumb(depth), now) == if depth < view.depth {
            Some(TransportAction::Apply(Intent::NavigateToDepth(depth)))
        } else {
            None
        },
        40_000 <= value <= 240_000 && value != view.tempo ==> transport_intent(
            view,
            TransportEvent::Tempo(value),
            now,
        ) == Some(TransportAction::Apply(Intent::SetBpm(value))),
        value < 40_000 && view.tempo != 40_000 ==> transport_intent(
            view,
            TransportEvent::Tempo(value),
            now,
        ) == Some(TransportAction::Apply(Intent::SetBpm(40_000))),
        value > 240_000 && view.tempo != 240_000 ==> transport_intent(
            view,
            TransportEvent::Tempo(value),
            now,
        ) == Some(TransportAction::Apply(Intent::SetBpm(240_000))),
        40_000 <= view.tempo <= 240_000 ==> transport_intent(
            view,
            TransportEvent::Tempo(view.tempo),
            now,
        ) is None,
        value <= 1_000 && value != view.metronome_gain ==> transport_intent(
            view,
            TransportEvent::MetronomeGain(value),
            now,
        ) == Some(TransportAction::Apply(Intent::SetMetronomeGain(value))),
        view.metronome_gain <= 1_000 ==> transport_intent(
            view,
            TransportEvent::MetronomeGain(view.metronome_gain),
            now,
        ) is None,
        1 <= numerator <= 32 ==> transport_intent(view, TransportEvent::Numerator(numerator), now)
            == if numerator == view.meter.numerator {
            None
        } else {
            Some(
                TransportAction::Apply(
                    Intent::SetTimeSignature { numerator, denominator: view.meter.denominator },
                ),
            )
        },
        denominator == 1 || denominator == 2 || denominator == 4 || denominator == 8 || denominator
            == 16 || denominator == 32 ==> transport_intent(
            view,
            TransportEvent::Denominator(denominator),
            now,
        ) == if denominator == view.meter.denominator {
            None
        } else {
            Some(
                TransportAction::Apply(
                    Intent::SetTimeSignature { numerator: view.meter.numerator, denominator },
                ),
            )
        },
{
}

/// The zoom is shown to the nearest percent of the usual scale, from the middle to the even one.
pub proof fn zooms_are_shown_to_the_nearest_percent(scale: int)
    requires
        0 <= scale,
    ensures
        -320 <= 2 * (320 * zoom_percent(scale) - scale) <= 320,
        2 * (320 * zoom_percent(scale) - scale) == 320 || 2 * (320 * zoom_percent(scale) - scale)
            == -320 ==> zoom_percent(scale) % 2 == 0,
{
}

/// A step lasts as long as it took, but a tenth of a second at most; the first lasts no time.
pub proof fn steps_last_as_long_as_they_took(last: u64, now: u64)
    ensures
        step_between(None, now) == 0,
        now < last ==> step_between(Some(last), now) == 0,
        last <= now <= last + 100_000_000 ==> step_between(Some(last), now) == now - last,
        now > last + 100_000_000 ==> step_between(Some(last), now) == 100_000_000,
{
}

/// A percentage takes three places, filled up with spaces in front.
pub proof fn percentages_take_three_places(value: nat)
    requires
        value < 1_000,
    ensures
        three_places(value).len() == 3,
        value >= 100 ==> three_places(value) == decimal(value),
        value < 100 ==> three_places(value)[0] == ' ',
        three_places(value).skip(3 - decimal(value).len()) == decimal(value),
{
    reveal_strlit("  ");
    reveal_strlit(" ");
    crate::text::written_numbers_read_back(value);
    crate::text::written_numbers_read_back(value / 10);
    crate::text::written_numbers_read_back(value / 100);
    assert(value / 10 / 10 == value / 100);
    assert(three_places(value).skip(3 - decimal(value).len()) =~= decimal(value));
}

/// A value that is put out of its range is set to its end, and a beat that no meter has is not
/// set.
pub proof fn values_out_of_range_are_set_to_the_end(
    view: TransportView,
    now: u64,
    value: u32,
    number: u8,
)
    ensures
        value > 1_000 && view.metronome_gain != 1_000 ==> transport_intent(
            view,
            TransportEvent::MetronomeGain(value),
            now,
        ) == Some(TransportAction::Apply(Intent::SetMetronomeGain(1_000))),
        number > 32 && view.meter.numerator != 32 ==> transport_intent(
            view,
            TransportEvent::Numerator(number),
            now,
        ) == Some(
            TransportAction::Apply(
                Intent::SetTimeSignature { numerator: 32, denominator: view.meter.denominator },
            ),
        ),
        number == 0 && view.meter.numerator != 1 ==> transport_intent(
            view,
            TransportEvent::Numerator(number),
            now,
        ) == Some(
            TransportAction::Apply(
                Intent::SetTimeSignature { numerator: 1, denominator: view.meter.denominator },
            ),
        ),
        !(number == 1 || number == 2 || number == 4 || number == 8 || number == 16 || number == 32)
            ==> transport_intent(view, TransportEvent::Denominator(number), now) is None,
{
}

/// A value that is kept between two stays where it is between them, and rests at the nearer one
/// otherwise.
pub proof fn kept_values_stay_between(value: int, low: int, high: int)
    requires
        low <= high,
    ensures
        low <= clamped(value, low, high) <= high,
        low <= value <= high ==> clamped(value, low, high) == value,
        value < low ==> clamped(value, low, high) == low,
        value > high ==> clamped(value, low, high) == high,
{
}

} // verus!
