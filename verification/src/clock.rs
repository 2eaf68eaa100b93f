//! Musical positions and times as text.
//!
//! Positions are counted in thousandths of the shortest note, which is 1/960 of a
//! beat; tempos in thousandths of a beat per minute; times in nanoseconds.
use crate::pages::least;
use crate::text::{decimal, padded, push_decimal, push_padded};
use vstd::prelude::*;

verus! {

/// Parts of a position in a beat, which is a quarter note.
pub const BEAT_PARTS: i64 = 960_000;

/// How many beats make a bar, and which note is a beat.
#[derive(Clone, Copy, Debug, PartialEq, Eq, Structural)]
pub struct TimeSignature {
    pub numerator: u8,
    pub denominator: u8,
}

impl TimeSignature {
    /// At least one beat to the bar, and a note that halves down to a thirty-second.
    pub open spec fn valid(self) -> bool {
        1 <= self.numerator <= 32 && (self.denominator == 1 || self.denominator == 2
            || self.denominator == 4 || self.denominator == 8 || self.denominator == 16
            || self.denominator == 32)
    }

    /// The signature with these numbers, if it is one.
    pub fn new(numerator: u8, denominator: u8) -> (meter: Option<TimeSignature>)
        ensures
            match meter {
                Some(meter) => meter.valid() && meter.numerator == numerator && meter.denominator
                    == denominator,
                None => !(TimeSignature { numerator, denominator }).valid(),
            },
    {
        if 1 <= numerator && numerator <= 32 && (denominator == 1 || denominator == 2
            || denominator == 4 || denominator == 8 || denominator == 16 || denominator == 32) {
            Some(TimeSignature { numerator, denominator })
        } else {
            None
        }
    }
}

/// Four quarters to the bar.
impl Default for TimeSignature {
    fn default() -> (meter: TimeSignature)
        ensures
            meter == (TimeSignature { numerator: 4, denominator: 4 }),
    {
        TimeSignature { numerator: 4, denominator: 4 }
    }
}

/// The length of the note that counts as a beat of the meter.
pub open spec fn unit_parts(meter: TimeSignature) -> int {
    4 * BEAT_PARTS / (meter.denominator as int)
}

/// The length of a bar.
pub open spec fn bar_parts(meter: TimeSignature) -> int {
    meter.numerator * unit_parts(meter)
}

/// The bar that holds a position, counted from one; what lies before the start is shown
/// in the first.
pub open spec fn bar_number(position: int, meter: TimeSignature) -> int {
    if position < 0 {
        1
    } else {
        position / bar_parts(meter) + 1
    }
}

/// The beat of the bar that holds a position, counted from one.
pub open spec fn beat_number(position: int, meter: TimeSignature) -> int {
    position % bar_parts(meter) / unit_parts(meter) + 1
}

/// How far a position is into its beat, in 1/960 of it.
pub open spec fn tick_number(position: int, meter: TimeSignature) -> int {
    position % bar_parts(meter) % unit_parts(meter) * 960 / unit_parts(meter)
}

/// A position as bar, beat and tick.
pub open spec fn position_text(position: int, meter: TimeSignature) -> Seq<char> {
    padded(bar_number(position, meter) as nat, 3) + " · "@ + decimal(
        beat_number(position, meter) as nat,
    ) + " · "@ + padded(tick_number(position, meter) as nat, 3)
}

/// The length of the note that counts as a beat of the meter.
fn unit_length(meter: TimeSignature) -> (unit: i64)
    requires
        meter.valid(),
    ensures
        unit == unit_parts(meter),
        120_000 <= unit <= 3_840_000,
{
    match meter.denominator {
        1 => 3_840_000,
        2 => 1_920_000,
        4 => 960_000,
        8 => 480_000,
        16 => 240_000,
        _ => 120_000,
    }
}

/// A position as bar, beat and tick.
pub fn format_position(position: i64, meter: TimeSignature) -> (text: String)
    requires
        meter.valid(),
    ensures
        text@ == position_text(position as int, meter),
{
    let unit: i64 = unit_length(meter);
    assert(120_000 <= meter.numerator * unit <= 32 * 3_840_000) by (nonlinear_arith)
        requires
            1 <= meter.numerator <= 32,
            120_000 <= unit <= 3_840_000,
    ;
    let bar: i64 = meter.numerator as i64 * unit;
    let whole: i64 = if position < 0 {
        0
    } else {
        position / bar
    };
    let in_bar: i64 = if position >= 0 {
        position % bar
    } else {
        let over: i64 = (-(position as i128) % bar as i128) as i64;
        if over == 0 {
            0
        } else {
            bar - over
        }
    };
    proof {
        lemma_remainder(position as int, bar as int);
        assert(0 <= position ==> 0 <= position as int / (bar as int) <= position) by (nonlinear_arith)
            requires
                bar >= 1,
        ;
        assert(in_bar == position as int % (bar as int));
        assert(0 <= in_bar < bar);
    }
    let beat: i64 = in_bar / unit;
    let rest: i64 = in_bar % unit;
    assert(0 <= beat <= in_bar && 0 <= rest < unit) by (nonlinear_arith)
        requires
            0 <= in_bar,
            unit >= 1,
            beat == in_bar as int / unit as int,
            rest == in_bar as int % unit as int,
    ;
    let ticks: i64 = rest * 960 / unit;
    assert(0 <= ticks <= rest * 960) by (nonlinear_arith)
        requires
            0 <= rest,
            unit >= 1,
            ticks == (rest * 960) / unit as int,
    ;
    let mut text = String::new();
    push_padded(&mut text, whole as u64 + 1, 3);
    text.append(" · ");
    push_decimal(&mut text, (beat + 1) as u64);
    text.append(" · ");
    push_padded(&mut text, ticks as u64, 3);
    assert(text@ =~= position_text(position as int, meter));
    text
}

/// The remainder of a negative number, from the remainder of its opposite.
proof fn lemma_remainder(value: int, by: int)
    requires
        by > 0,
    ensures
        value < 0 ==> value % by == (if (-value) % by == 0 {
            0
        } else {
            by - (-value) % by
        }),
{
    if value < 0 {
        let over = (-value) % by;
        let times = (-value) / by;
        assert(-value == times * by + over) by (nonlinear_arith)
            requires
                by > 0,
                over == (-value) % by,
                times == (-value) / by,
        ;
        if over == 0 {
            assert(value == by * (-times)) by (nonlinear_arith)
                requires
                    -value == times * by,
            ;
            vstd::arithmetic::div_mod::lemma_fundamental_div_mod_converse(value, by, -times, 0);
        } else {
            assert(value == by * (-times - 1) + (by - over)) by (nonlinear_arith)
                requires
                    -value == times * by + over,
            ;
            vstd::arithmetic::div_mod::lemma_fundamental_div_mod_converse(
                value,
                by,
                -times - 1,
                by - over,
            );
        }
    }
}

/// Milliseconds, rounded half up, from the start to a position at a tempo. Without a
/// tempo no time passes, and nothing lies before the start.
pub open spec fn playhead_millis(position: int, tempo: int) -> int {
    if tempo <= 0 || position <= 0 {
        0
    } else {
        (position * 125 + tempo) / (2 * tempo)
    }
}

/// Milliseconds as `[hours:]minutes:seconds.milliseconds`.
pub open spec fn millis_text(millis: nat) -> Seq<char> {
    let rest = padded(millis / 60_000 % 60, 2) + ":"@ + padded(millis / 1_000 % 60, 2) + "."@
        + padded(millis % 1_000, 3);
    if millis / 3_600_000 == 0 {
        rest
    } else {
        padded(millis / 3_600_000, 2) + ":"@ + rest
    }
}

/// The time of a position at a tempo. A tempo that is none is given as zero.
pub fn format_playhead_time(position: i64, tempo: u32) -> (text: String)
    ensures
        text@ == millis_text(playhead_millis(position as int, tempo as int) as nat),
{
    let millis: u128 = if tempo == 0 || position <= 0 {
        0
    } else {
        let doubled: u128 = position as u128 * 125 + tempo as u128;
        assert(doubled as int / (2 * tempo) <= doubled) by (nonlinear_arith)
            requires
                tempo >= 1,
        ;
        doubled / (2 * tempo as u128)
    };
    let mut text = String::new();
    let hours: u64 = (millis / 3_600_000) as u64;
    if hours != 0 {
        push_padded(&mut text, hours, 2);
        text.append(":");
    }
    push_padded(&mut text, (millis / 60_000 % 60) as u64, 2);
    text.append(":");
    push_padded(&mut text, (millis / 1_000 % 60) as u64, 2);
    text.append(".");
    push_padded(&mut text, (millis % 1_000) as u64, 3);
    assert(text@ =~= millis_text(millis as nat));
    text
}

/// A whole number of units nearest to a time, the later of two.
pub open spec fn rounded(nanos: nat, unit: nat) -> nat {
    (2 * nanos + unit) / (2 * unit)
}

/// A time as `minutes:seconds`.
pub open spec fn audio_time_text(nanos: nat) -> Seq<char> {
    let total = rounded(nanos, 1_000_000_000);
    decimal(total / 60) + ":"@ + padded(total % 60, 2)
}

/// A time as `minutes:seconds`, to the nearest second.
pub fn format_audio_time(nanos: u64) -> (text: String)
    ensures
        text@ == audio_time_text(nanos as nat),
{
    let total: u64 = ((2 * nanos as u128 + 1_000_000_000) / 2_000_000_000) as u64;
    let mut text = String::new();
    push_decimal(&mut text, total / 60);
    text.append(":");
    push_padded(&mut text, total % 60, 2);
    assert(text@ =~= audio_time_text(nanos as nat));
    text
}

/// A time as `minutes:seconds.tenths`.
pub open spec fn preview_time_text(nanos: nat) -> Seq<char> {
    let millis = rounded(nanos, 1_000_000);
    decimal(millis / 60_000) + ":"@ + padded(millis / 1_000 % 60, 2) + "."@ + decimal(
        millis / 100 % 10,
    )
}

/// A time as `minutes:seconds.tenths`: to the nearest millisecond, then cut to tenths.
pub fn format_preview_time(nanos: u64) -> (text: String)
    ensures
        text@ == preview_time_text(nanos as nat),
{
    let millis: u64 = ((2 * nanos as u128 + 1_000_000) / 2_000_000) as u64;
    let mut text = String::new();
    push_decimal(&mut text, millis / 60_000);
    text.append(":");
    push_padded(&mut text, millis / 1_000 % 60, 2);
    text.append(".");
    push_decimal(&mut text, millis / 100 % 10);
    assert(text@ =~= preview_time_text(nanos as nat));
    text
}

/// The frame nearest to a position, the later of two, as far as frames are counted.
/// Without a tempo there is only the first frame, and nothing lies before it.
pub open spec fn position_frame(position: int, tempo: int, sample_rate: int) -> int {
    if tempo <= 0 || position <= 0 {
        0
    } else {
        least((position * sample_rate + 8 * tempo) / (16 * tempo), u64::MAX as int)
    }
}

/// The frame nearest to a position at a tempo. A tempo that is none is given as zero.
pub fn beat_to_frame(position: i64, tempo: u32, sample_rate: u32) -> (frame: u64)
    ensures
        frame == position_frame(position as int, tempo as int, sample_rate as int),
{
    if tempo == 0 || position <= 0 {
        return 0;
    }
    assert(0 <= position * sample_rate <= 0x7fff_ffff_ffff_ffff * 0xffff_ffff) by (nonlinear_arith)
        requires
            0 <= position <= 0x7fff_ffff_ffff_ffff,
            0 <= sample_rate <= 0xffff_ffff,
    ;
    let scaled: u128 = position as u128 * sample_rate as u128 + 8 * tempo as u128;
    let frame: u128 = scaled / (16 * tempo as u128);
    if frame > u64::MAX as u128 {
        u64::MAX
    } else {
        frame as u64
    }
}

/// The position of a frame, rounded down, as far as positions are counted.
pub open spec fn frame_position(frame: int, tempo: int, sample_rate: int) -> int {
    if sample_rate <= 0 {
        0
    } else {
        least(frame * tempo * 16 / sample_rate, i64::MAX as int)
    }
}

/// The position of a frame at a tempo. A tempo that is none is given as zero.
pub fn frame_to_beat(frame: u64, tempo: u32, sample_rate: u32) -> (position: i64)
    ensures
        position == frame_position(frame as int, tempo as int, sample_rate as int),
{
    if sample_rate == 0 {
        return 0;
    }
    assert(0 <= frame * tempo <= 0xffff_ffff_ffff_ffff * 0xffff_ffff) by (nonlinear_arith)
        requires
            0 <= frame <= 0xffff_ffff_ffff_ffff,
            0 <= tempo <= 0xffff_ffff,
    ;
    let scaled: u128 = frame as u128 * tempo as u128 * 16;
    let position: u128 = scaled / sample_rate as u128;
    assert(position == frame * tempo * 16 / (sample_rate as int));
    if position > i64::MAX as u128 {
        i64::MAX
    } else {
        position as i64
    }
}

/// The position of a frame leads back to the frame, unless the tempo is so slow, or the
/// frame so far, that positions cannot tell frames apart.
pub proof fn frame_position_leads_back(frame: int, tempo: int, sample_rate: int)
    requires
        0 <= frame <= u64::MAX,
        0 < sample_rate < 8 * tempo,
        frame * tempo * 16 / sample_rate <= i64::MAX,
    ensures
        position_frame(frame_position(frame, tempo, sample_rate), tempo, sample_rate) == frame,
{
    let total = frame * tempo * 16;
    let position = total / sample_rate;
    let rest = total % sample_rate;
    assert(0 <= frame * tempo) by (nonlinear_arith)
        requires
            0 <= frame,
            0 < tempo,
    ;
    vstd::arithmetic::div_mod::lemma_fundamental_div_mod(total, sample_rate);
    assert(0 <= rest < sample_rate) by (nonlinear_arith)
        requires
            rest == total % sample_rate,
            sample_rate > 0,
    ;
    assert(sample_rate * position == position * sample_rate) by (nonlinear_arith);
    let by = 16 * tempo;
    assert(total == by * frame) by (nonlinear_arith)
        requires
            total == frame * tempo * 16,
            by == 16 * tempo,
    ;
    assert(by * frame == frame * by) by (nonlinear_arith);
    let inside = 8 * tempo - rest;
    assert(position * sample_rate + 8 * tempo == frame * by + inside);
    vstd::arithmetic::div_mod::lemma_fundamental_div_mod_converse(
        position * sample_rate + 8 * tempo,
        by,
        frame,
        inside,
    );
    assert(position >= 0) by (nonlinear_arith)
        requires
            position == total / sample_rate,
            total >= 0,
            sample_rate > 0,
    ;
    if position == 0 {
        assert(sample_rate * position == 0) by (nonlinear_arith)
            requires
                position == 0,
        ;
        assert(frame >= 1 ==> frame * by >= by) by (nonlinear_arith)
            requires
                by > 0,
        ;
    }
}

/// The three numbers that are shown for a position lead back to it, to within a tick.
pub proof fn shown_position_leads_back(position: int, meter: TimeSignature)
    requires
        meter.valid(),
        0 <= position,
    ensures
        ({
            let unit = unit_parts(meter);
            let start = (bar_number(position, meter) - 1) * bar_parts(meter) + (beat_number(
                position,
                meter,
            ) - 1) * unit;
            let ticks = tick_number(position, meter);
            &&& 1 <= beat_number(position, meter) <= meter.numerator
            &&& 0 <= ticks < 960
            &&& start * 960 + ticks * unit <= position * 960 < start * 960 + (ticks + 1) * unit
        }),
{
    let unit = unit_parts(meter);
    let bar = bar_parts(meter);
    assert(120_000 <= unit);
    assert(bar >= unit) by (nonlinear_arith)
        requires
            bar == meter.numerator * unit,
            1 <= meter.numerator,
            unit >= 120_000,
    ;
    let in_bar = position % bar;
    let rest = in_bar % unit;
    vstd::arithmetic::div_mod::lemma_fundamental_div_mod(position, bar);
    vstd::arithmetic::div_mod::lemma_fundamental_div_mod(in_bar, unit);
    vstd::arithmetic::div_mod::lemma_fundamental_div_mod(rest * 960, unit);
    assert(0 <= in_bar / unit < meter.numerator) by (nonlinear_arith)
        requires
            0 <= in_bar < meter.numerator * unit,
            unit >= 120_000,
    ;
    assert(0 <= (rest * 960) / unit < 960) by (nonlinear_arith)
        requires
            0 <= rest < unit,
    ;
    let ticks = (rest * 960) / unit;
    assert(unit * ticks == ticks * unit) by (nonlinear_arith);
    assert((ticks + 1) * unit == ticks * unit + unit) by (nonlinear_arith);
    assert(bar * (position / bar) == (position / bar) * bar) by (nonlinear_arith);
    assert(unit * (in_bar / unit) == (in_bar / unit) * unit) by (nonlinear_arith);
}

/// A position is put on the nearest frame. Positions count 960,000 parts to the beat, tempos
/// thousandths of a beat per minute, which has 60 seconds of so many frames.
pub proof fn positions_meet_the_nearest_frame(position: int, tempo: int, sample_rate: int)
    requires
        0 < position,
        0 < tempo,
        0 <= sample_rate,
        position_frame(position, tempo, sample_rate) < u64::MAX,
    ensures
        -960_000 * tempo < 2 * (position_frame(position, tempo, sample_rate) * (960_000 * tempo)
            - 60_000 * (position * sample_rate)) <= 960_000 * tempo,
{
    let total = position * sample_rate + 8 * tempo;
    let by = 16 * tempo;
    let frame = total / by;
    assert(0 <= position * sample_rate) by (nonlinear_arith)
        requires
            0 < position,
            0 <= sample_rate,
    ;
    vstd::arithmetic::div_mod::lemma_fundamental_div_mod(total, by);
    assert(0 <= total % by < by) by (nonlinear_arith)
        requires
            0 < by,
    ;
    assert(frame * (960_000 * tempo) == 60_000 * (by * frame)) by (nonlinear_arith)
        requires
            by == 16 * tempo,
    ;
}

/// After a minute the position is the tempo, and the frame sixty times the sample rate.
pub proof fn a_minute_is_sixty_seconds(tempo: int, sample_rate: int)
    requires
        0 < tempo,
        0 <= sample_rate <= u32::MAX,
        960 * tempo <= i64::MAX,
    ensures
        position_frame(960 * tempo, tempo, sample_rate) == 60 * sample_rate,
        sample_rate > 0 ==> frame_position(60 * sample_rate, tempo, sample_rate) == 960 * tempo,
        playhead_millis(960 * tempo, tempo) == 60_000,
{
    let by = 16 * tempo;
    assert(960 * tempo * sample_rate + 8 * tempo == by * (60 * sample_rate) + 8 * tempo)
        by (nonlinear_arith)
        requires
            by == 16 * tempo,
    ;
    vstd::arithmetic::div_mod::lemma_fundamental_div_mod_converse(
        960 * tempo * sample_rate + 8 * tempo,
        by,
        60 * sample_rate,
        8 * tempo,
    );
    if sample_rate > 0 {
        assert(60 * sample_rate * tempo * 16 == (960 * tempo) * sample_rate + 0)
            by (nonlinear_arith);
        vstd::arithmetic::div_mod::lemma_fundamental_div_mod_converse(
            60 * sample_rate * tempo * 16,
            sample_rate,
            960 * tempo,
            0,
        );
    }
    assert(960 * tempo * 125 + tempo == (2 * tempo) * 60_000 + tempo);
    vstd::arithmetic::div_mod::lemma_fundamental_div_mod_converse(
        960 * tempo * 125 + tempo,
        2 * tempo,
        60_000,
        tempo,
    );
}

/// A frame stands at the last position that it has reached.
pub proof fn frames_stand_at_the_position_reached(frame: int, tempo: int, sample_rate: int)
    requires
        0 <= frame,
        0 <= tempo,
        0 < sample_rate,
        frame_position(frame, tempo, sample_rate) < i64::MAX,
    ensures
        60_000 * (sample_rate * frame_position(frame, tempo, sample_rate)) <= 960_000 * (frame
            * tempo) < 60_000 * (sample_rate * (frame_position(frame, tempo, sample_rate) + 1)),
{
    let total = frame * tempo * 16;
    vstd::arithmetic::div_mod::lemma_fundamental_div_mod(total, sample_rate);
    assert(0 <= total % sample_rate < sample_rate) by (nonlinear_arith)
        requires
            0 < sample_rate,
    ;
    let position = total / sample_rate;
    assert(sample_rate * (position + 1) == sample_rate * position + sample_rate)
        by (nonlinear_arith);
}

/// The time of a position is the nearest thousandth of a second.
pub proof fn times_are_the_nearest_thousandth(position: int, tempo: int)
    requires
        0 < position,
        0 < tempo,
    ensures
        -960_000 * tempo < 2 * (playhead_millis(position, tempo) * (960_000 * tempo) - 60_000_000
            * position) <= 960_000 * tempo,
{
    let total = position * 125 + tempo;
    let by = 2 * tempo;
    let millis = total / by;
    vstd::arithmetic::div_mod::lemma_fundamental_div_mod(total, by);
    assert(0 <= total % by < by) by (nonlinear_arith)
        requires
            0 < by,
    ;
    assert(millis * (960_000 * tempo) == 480_000 * (by * millis)) by (nonlinear_arith)
        requires
            by == 2 * tempo,
    ;
}

/// A bar has as many beats as the numerator says, of the length that the denominator says: four
/// quarters make 3,840,000 parts.
pub proof fn bars_have_the_length_of_their_meter(meter: TimeSignature)
    requires
        meter.valid(),
    ensures
        meter.denominator * unit_parts(meter) == 3_840_000,
        meter.denominator * bar_parts(meter) == 3_840_000 * meter.numerator,
{
    let unit = unit_parts(meter);
    let parts = meter.denominator as int;
    assert(parts * unit == 3_840_000) by {
        assert(parts == 1 || parts == 2 || parts == 4 || parts == 8 || parts == 16 || parts == 32);
        if parts == 1 {
            assert(unit == 3_840_000);
        } else if parts == 2 {
            assert(unit == 1_920_000);
        } else if parts == 4 {
            assert(unit == 960_000);
        } else if parts == 8 {
            assert(unit == 480_000);
        } else if parts == 16 {
            assert(unit == 240_000);
        } else {
            assert(unit == 120_000);
        }
    }
    assert(meter.denominator * (meter.numerator * unit) == 3_840_000 * meter.numerator)
        by (nonlinear_arith)
        requires
            meter.denominator * unit == 3_840_000,
    ;
}

/// Bars, beats and ticks count up together: a position some bars, beats and 960ths of a beat
/// from the start is shown as these, bars and beats counted from one.
pub proof fn positions_count_bars_beats_and_ticks(
    bars: int,
    beats: int,
    ticks: int,
    meter: TimeSignature,
)
    requires
        meter.valid(),
        0 <= bars,
        0 <= beats < meter.numerator,
        0 <= ticks < 960,
        meter.denominator == 4,
    ensures
        ({
            let position = (bars * meter.numerator + beats) * 960_000 + ticks * 1_000;
            &&& bar_number(position, meter) == bars + 1
            &&& beat_number(position, meter) == beats + 1
            &&& tick_number(position, meter) == ticks
        }),
{
    let position = (bars * meter.numerator + beats) * 960_000 + ticks * 1_000;
    let bar = bar_parts(meter);
    let rest = beats * 960_000 + ticks * 1_000;
    assert(unit_parts(meter) == 960_000);
    assert(position == bar * bars + rest && 0 <= rest < bar && 0 <= bar * bars)
        by (nonlinear_arith)
        requires
            position == (bars * meter.numerator + beats) * 960_000 + ticks * 1_000,
            bar == meter.numerator * 960_000,
            rest == beats * 960_000 + ticks * 1_000,
            0 <= beats < meter.numerator,
            0 <= ticks < 960,
            0 <= bars,
            1 <= meter.numerator,
    ;
    vstd::arithmetic::div_mod::lemma_fundamental_div_mod_converse(position, bar, bars, rest);
}

/// A time is shown by its hours, minutes, seconds and thousandths; the hours only if there are
/// any.
pub proof fn shown_times_add_up(hours: nat, minutes: nat, seconds: nat, millis: nat)
    requires
        minutes < 60,
        seconds < 60,
        millis < 1_000,
    ensures
        ({
            let text = millis_text(
                3_600_000 * hours + 60_000 * minutes + 1_000 * seconds + millis,
            );
            let short = padded(minutes, 2) + ":"@ + padded(seconds, 2) + "."@ + padded(millis, 3);
            &&& hours == 0 ==> text == short
            &&& hours > 0 ==> text == padded(hours, 2) + ":"@ + short
        }),
{
    let total = 3_600_000 * hours + 60_000 * minutes + 1_000 * seconds + millis;
    assert(total / 3_600_000 == hours);
    let whole_minutes: nat = total / 60_000;
    assert(whole_minutes == 60 * hours + minutes);
    assert(whole_minutes % 60 == minutes);
    let whole_seconds: nat = total / 1_000;
    assert(whole_seconds == 3_600 * hours + 60 * minutes + seconds);
    assert(whole_seconds % 60 == seconds);
    assert(total % 1_000 == millis);
}

/// A length of audio is shown in minutes and seconds, to the nearest second, and where it is
/// listened to down to the tenth that has been reached.
pub proof fn shown_lengths_add_up(minutes: nat, seconds: nat, tenths: nat, nanos: nat)
    requires
        seconds < 60,
        tenths < 10,
    ensures
        1_000_000_000 * (60 * minutes + seconds) <= nanos + 500_000_000 < 1_000_000_000 * (60
            * minutes + seconds + 1) ==> audio_time_text(nanos) == decimal(minutes) + ":"@
            + padded(seconds, 2),
        100_000_000 * (600 * minutes + 10 * seconds + tenths) <= nanos + 500_000 < 100_000_000 * (
        600 * minutes + 10 * seconds + tenths + 1) ==> preview_time_text(nanos) == decimal(minutes)
            + ":"@ + padded(seconds, 2) + "."@ + decimal(tenths),
{
    if 1_000_000_000 * (60 * minutes + seconds) <= nanos + 500_000_000 < 1_000_000_000 * (60
        * minutes + seconds + 1) {
        let total = rounded(nanos, 1_000_000_000);
        assert(total == (2 * nanos + 1_000_000_000) / 2_000_000_000);
        assert(total == 60 * minutes + seconds);
        assert(total / 60 == minutes && total % 60 == seconds);
    }
    if 100_000_000 * (600 * minutes + 10 * seconds + tenths) <= nanos + 500_000 < 100_000_000 * (
    600 * minutes + 10 * seconds + tenths + 1) {
        let millis = rounded(nanos, 1_000_000);
        assert(millis == (2 * nanos + 1_000_000) / 2_000_000);
        assert(60_000 * minutes + 1_000 * seconds + 100 * tenths <= millis < 60_000 * minutes
            + 1_000 * seconds + 100 * tenths + 100);
        assert(millis / 60_000 == minutes);
        let whole: nat = millis / 1_000;
        assert(whole == 60 * minutes + seconds);
        assert(whole % 60 == seconds);
        let all: nat = millis / 100;
        assert(all == 600 * minutes + 10 * seconds + tenths);
        assert(all % 10 == tenths);
    }
}

/// A position is shown by its bar, beat and tick, bars and ticks in three digits.
pub proof fn shown_positions_count_bars_beats_and_ticks(
    bars: int,
    beats: int,
    ticks: int,
    meter: TimeSignature,
)
    requires
        meter.valid(),
        0 <= bars,
        0 <= beats < meter.numerator,
        0 <= ticks < 960,
        meter.denominator == 4,
    ensures
        position_text((bars * meter.numerator + beats) * 960_000 + ticks * 1_000, meter) == padded(
            (bars + 1) as nat,
            3,
        ) + " · "@ + decimal((beats + 1) as nat) + " · "@ + padded(ticks as nat, 3),
{
    positions_count_bars_beats_and_ticks(bars, beats, ticks, meter);
}

} // verus!
