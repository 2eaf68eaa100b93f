//! Level meters: a row of segments, lit up to the level.
use vstd::prelude::*;

verus! {

/// The colour of a segment.
#[derive(Clone, Copy, Debug, PartialEq, Eq, Structural)]
pub enum MeterColor {
    Green,
    Yellow,
    Red,
}

/// The level at the end of a segment lies at or above a level below the top, the whole
/// meter spanning sixty decibels.
pub open spec fn reaches(index: int, segments: int, below_top: int) -> bool {
    (index + 1) * 60 >= (60 - below_top) * segments
}

/// The colour of a segment: red in the last three decibels, yellow in the twelve before
/// the top.
pub open spec fn segment_color(index: int, segments: int) -> MeterColor {
    if reaches(index, segments, 3) {
        MeterColor::Red
    } else if reaches(index, segments, 12) {
        MeterColor::Yellow
    } else {
        MeterColor::Green
    }
}

/// The segments of a meter of this length, in points.
pub fn segment_count(length: u32) -> (segments: u32)
    ensures
        segments == if length < 4 {
            1
        } else {
            length / 4
        },
{
    if length < 4 {
        1
    } else {
        length / 4
    }
}

/// The segments that are lit at a level, given in thousandths of the meter.
pub open spec fn lit_segments(level: int, segments: int) -> int {
    if level >= 1_000 {
        segments
    } else {
        (level * segments + 999) / 1_000
    }
}

/// The colours of the segments that are lit at a level.
pub fn lit_colors(level: u32, segments: u32) -> (colors: Vec<MeterColor>)
    ensures
        colors@.len() == lit_segments(level as int, segments as int),
        forall|i: int|
            0 <= i < colors@.len() ==> #[trigger] colors@[i] == segment_color(i, segments as int),
{
    let lit: u64 = if level >= 1_000 {
        segments as u64
    } else {
        assert(0 <= level * segments <= 1_000 * 0xffff_ffff) by (nonlinear_arith)
            requires
                0 <= level <= 1_000,
                0 <= segments <= 0xffff_ffff,
        ;
        (level as u64 * segments as u64 + 999) / 1_000
    };
    assert(lit <= segments) by {
        if level < 1_000 {
            assert(level * segments <= 1_000 * segments) by (nonlinear_arith)
                requires
                    0 <= level <= 1_000,
                    0 <= segments,
            ;
        }
    }
    let mut colors: Vec<MeterColor> = Vec::new();
    let mut index: u64 = 0;
    while index < lit
        invariant
            index <= lit <= segments,
            colors@.len() == index,
            forall|i: int|
                0 <= i < colors@.len() ==> #[trigger] colors@[i] == segment_color(
                    i,
                    segments as int,
                ),
        decreases lit - index,
    {
        let top: u64 = (index + 1) * 60;
        colors.push(
            if top >= 57 * segments as u64 {
                MeterColor::Red
            } else if top >= 48 * segments as u64 {
                MeterColor::Yellow
            } else {
                MeterColor::Green
            },
        );
        index += 1;
    }
    colors
}

/// A meter never lights more segments than it has, nothing at silence, and all at full
/// level.
pub proof fn meters_stay_in_range(level: int, segments: int)
    requires
        0 <= level,
        0 <= segments,
    ensures
        0 <= lit_segments(level, segments) <= segments,
        level == 0 ==> lit_segments(level, segments) == 0,
        level >= 1_000 ==> lit_segments(level, segments) == segments,
{
    if level < 1_000 {
        assert(0 <= level * segments <= 1_000 * segments) by (nonlinear_arith)
            requires
                0 <= level <= 1_000,
                0 <= segments,
        ;
        assert(level == 0 ==> level * segments == 0) by (nonlinear_arith);
    }
}

/// As many segments are lit as the level reaches into, in thousandths of the length of the meter:
/// the last one that is lit is reached, and the next one is not.
pub proof fn lit_segments_are_those_reached(level: int, segments: int)
    requires
        0 <= level <= 1_000,
        0 <= segments,
    ensures
        1_000 * (lit_segments(level, segments) - 1) < level * segments <= 1_000 * lit_segments(
            level,
            segments,
        ),
{
    if level == 1_000 {
        assert(level * segments == 1_000 * segments);
    }
}

/// The meter spans 60 decibels: the segments that end in the uppermost 3 are red, those that end
/// in the 9 below are yellow, all others green.
pub proof fn segments_are_colored_by_their_upper_end(index: int, segments: int)
    requires
        0 <= index < segments,
    ensures
        segment_color(index, segments) is Red <==> 60 * (index + 1) >= 57 * segments,
        segment_color(index, segments) is Yellow <==> 48 * segments <= 60 * (index + 1) < 57
            * segments,
        segment_color(index, segments) is Green <==> 60 * (index + 1) < 48 * segments,
{
}

} // verus!
