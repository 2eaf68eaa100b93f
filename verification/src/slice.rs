//! Choosing a slice of a recording on its waveform.
//!
//! Times are counted in nanoseconds. Places on the screen are counted in thousandths of a
//! point from the left edge of the waveform.
use crate::pages::least;
use crate::transport::clamped;
use vstd::prelude::*;

verus! {

/// The shortest slice of a recording whose frames are not known.
pub const USUAL_FRAME: i64 = 20_833;

/// How close to an edge of the slice the pointer takes hold of it.
pub const HANDLE_REACH: i64 = 9_000;

/// The recording that is sliced.
#[derive(Clone, Copy, Debug)]
pub struct SliceSource {
    pub duration: i64,
    pub min_length: i64,
}

/// What a drag changes.
#[derive(Clone, Copy, Debug, PartialEq, Eq, Structural)]
pub enum DragKind {
    Start,
    End,
    Move,
    Select,
}

/// A drag under way, with the slice as it was.
#[derive(Clone, Copy, Debug, PartialEq, Eq, Structural)]
pub struct Drag {
    pub kind: DragKind,
    pub anchor: i64,
    pub start: i64,
    pub end: i64,
}

/// The part of the recording that is shown.
#[derive(Clone, Copy, Debug, PartialEq, Eq, Structural)]
pub struct SliceView {
    pub offset: i64,
    pub span: i64,
    pub drag: Option<Drag>,
}

/// The slice.
#[derive(Clone, Copy, Debug, PartialEq, Eq, Structural)]
pub struct Slice {
    pub start: i64,
    pub end: i64,
}

/// A button above the waveform.
#[derive(Clone, Copy, Debug, PartialEq, Eq, Structural)]
pub enum ZoomButton {
    Out,
    In,
    Fit,
    Slice,
    /// The bar was moved so that the view starts here.
    Scroll(i64),
}

/// What the pointer does on the waveform.
#[derive(Clone, Copy, Debug)]
pub struct SliceInput {
    pub width: u32,
    pub button: Option<ZoomButton>,
    /// Where the pointer is, if it is over the waveform.
    pub hover: Option<i32>,
    /// How much more is shown, in thousandths: 1,000 is no change.
    pub zoom: u32,
    /// How far the view is pushed to the right.
    pub pan: i32,
    /// The ruler was clicked here.
    pub ruler: Option<i32>,
    /// A drag started here.
    pub pressed: Option<i32>,
    /// The pointer holds the waveform, here.
    pub pointer: Option<i32>,
    /// The pointer let go.
    pub released: bool,
    /// A drag chooses a new slice wherever it starts.
    pub shift: bool,
}

/// What came of it.
#[derive(Clone, Copy, Debug, PartialEq, Eq, Structural)]
pub struct SliceResponse {
    pub changed: bool,
    /// The slice is as the user wants it.
    pub finished: bool,
    /// Listen from here.
    pub seek: Option<i64>,
}

/// The shortest slice of a recording.
pub open spec fn minimum(source: SliceSource) -> int {
    if source.min_length > 0 {
        least(source.min_length as int, source.duration as int)
    } else {
        least(USUAL_FRAME as int, source.duration as int)
    }
}

/// A slice of the recording that is neither empty nor outside it.
pub open spec fn fits(start: int, end: int, source: SliceSource) -> bool {
    0 <= start && start + minimum(source) <= end <= source.duration
}

/// A slice brought into the recording.
pub open spec fn fitted(slice: Slice, source: SliceSource) -> Slice {
    let start = clamped(slice.start as int, 0, source.duration - minimum(source));
    Slice {
        start: start as i64,
        end: clamped(slice.end as int, start + minimum(source), source.duration as int) as i64,
    }
}

/// A view brought into the recording: a view of nothing shows everything.
pub open spec fn normal(offset: int, span: int, drag: Option<Drag>, source: SliceSource)
    -> SliceView {
    let wanted = if span <= 0 {
        source.duration as int
    } else {
        span
    };
    let kept = clamped(wanted, minimum(source), source.duration as int);
    SliceView {
        offset: clamped(offset, 0, source.duration - kept) as i64,
        span: kept as i64,
        drag,
    }
}

/// A view that shows a part of the recording.
pub open spec fn shows(view: SliceView, source: SliceSource) -> bool {
    &&& 0 < view.span <= source.duration
    &&& 0 <= view.offset <= source.duration - view.span
}

/// The time at a place.
pub open spec fn time_at(view: SliceView, place: int, width: int, duration: int) -> int {
    clamped(view.offset + place * view.span / width, 0, duration)
}

/// The place of a time.
pub open spec fn place_of(view: SliceView, time: int, width: int) -> int {
    (time - view.offset) * width / (view.span as int)
}

/// The view after zooming by `zoom` thousandths about a time, which stays in its place.
pub open spec fn zoomed(view: SliceView, zoom: int, anchor: int, source: SliceSource)
    -> SliceView {
    let before = clamped(anchor - view.offset, 0, view.span as int);
    let span = clamped(view.span * zoom / 1_000, minimum(source), source.duration as int);
    normal(anchor - before * span / (view.span as int), span, view.drag, source)
}

/// The view after a button.
pub open spec fn after_button(
    view: SliceView,
    slice: Slice,
    button: Option<ZoomButton>,
    source: SliceSource,
) -> SliceView {
    let center = view.offset + view.span / 2;
    match button {
        None => view,
        Some(ZoomButton::Out) => zoomed(view, 2_000, center, source),
        Some(ZoomButton::In) => zoomed(view, 500, center, source),
        Some(ZoomButton::Fit) => SliceView { offset: 0, span: source.duration, drag: view.drag },
        Some(ZoomButton::Slice) => {
            let padding = (slice.end - slice.start) / 10;
            normal(
                slice.start - padding,
                slice.end - slice.start + padding * 2,
                view.drag,
                source,
            )
        },
        Some(ZoomButton::Scroll(offset)) => if view.span < source.duration {
            SliceView {
                offset: clamped(offset as int, 0, source.duration - view.span) as i64,
                span: view.span,
                drag: view.drag,
            }
        } else {
            view
        },
    }
}

/// The view after the pointer zoomed and pushed it, which it can do only over it.
pub open spec fn after_wheel(view: SliceView, input: SliceInput, source: SliceSource) -> SliceView {
    match input.hover {
        None => view,
        Some(place) => {
            let anchor = time_at(view, place as int, input.width as int, source.duration as int);
            let near = if input.zoom == 1_000 {
                view
            } else {
                zoomed(view, input.zoom as int, anchor, source)
            };
            if input.pan == 0 {
                near
            } else {
                normal(
                    near.offset - input.pan * near.span / (input.width as int),
                    near.span as int,
                    near.drag,
                    source,
                )
            }
        },
    }
}

/// What a drag that starts at a place changes: an edge that is near, the slice as a whole
/// from within, and otherwise what is chosen.
pub open spec fn drag_kind(
    view: SliceView,
    slice: Slice,
    place: int,
    width: int,
    shift: bool,
    duration: int,
) -> DragKind {
    let to_start = distance(place, place_of(view, slice.start as int, width));
    let to_end = distance(place, place_of(view, slice.end as int, width));
    let anchor = time_at(view, place, width, duration);
    if least(to_start, to_end) <= HANDLE_REACH {
        if to_start <= to_end {
            DragKind::Start
        } else {
            DragKind::End
        }
    } else if slice.start < anchor < slice.end && slice.end - slice.start < duration && !shift {
        DragKind::Move
    } else {
        DragKind::Select
    }
}

/// How far two places are apart.
pub open spec fn distance(left: int, right: int) -> int {
    if left <= right {
        right - left
    } else {
        left - right
    }
}

/// The drag under way, after one may have started.
pub open spec fn drag_after(
    view: SliceView,
    slice: Slice,
    input: SliceInput,
    source: SliceSource,
) -> Option<Drag> {
    match input.pressed {
        Some(place) => Some(
            Drag {
                kind: drag_kind(
                    view,
                    slice,
                    place as int,
                    input.width as int,
                    input.shift,
                    source.duration as int,
                ),
                anchor: time_at(
                    view,
                    place as int,
                    input.width as int,
                    source.duration as int,
                ) as i64,
                start: slice.start,
                end: slice.end,
            },
        ),
        None => view.drag,
    }
}

/// The slice after a drag to a time.
pub open spec fn dragged(slice: Slice, drag: Drag, time: int, source: SliceSource) -> Slice {
    let least_length = minimum(source);
    let duration = source.duration as int;
    match drag.kind {
        DragKind::Start => Slice {
            start: clamped(time, 0, slice.end - least_length) as i64,
            end: slice.end,
        },
        DragKind::End => Slice {
            start: slice.start,
            end: clamped(time, slice.start + least_length, duration) as i64,
        },
        DragKind::Move => {
            let length = drag.end - drag.start;
            let start = clamped(drag.start + time - drag.anchor, 0, duration - length);
            Slice { start: start as i64, end: (start + length) as i64 }
        },
        DragKind::Select => {
            let start = clamped(
                least(drag.anchor as int, time),
                0,
                duration - least_length,
            );
            let end = clamped(
                crate::pages::greatest(drag.anchor as int, time),
                start + least_length,
                duration,
            );
            Slice { start: start as i64, end: end as i64 }
        },
    }
}

/// The view, the slice and what came of it, after one look at the waveform.
pub open spec fn slice_step(
    view: SliceView,
    slice: Slice,
    source: SliceSource,
    input: SliceInput,
) -> (SliceView, Slice, SliceResponse) {
    let width = input.width as int;
    let duration = source.duration as int;
    let first = fitted(slice, source);
    let shown = after_wheel(
        after_button(
            normal(view.offset as int, view.span as int, view.drag, source),
            first,
            input.button,
            source,
        ),
        input,
        source,
    );
    let drag = drag_after(shown, first, input, source);
    let second = match (drag, input.pointer) {
        (Some(drag), Some(place)) => dragged(
            first,
            drag,
            time_at(shown, place as int, width, duration),
            source,
        ),
        _ => first,
    };
    (
        SliceView {
            drag: if input.released {
                None
            } else {
                drag
            },
            ..shown
        },
        second,
        SliceResponse {
            changed: second != first,
            finished: input.released && match drag {
                Some(drag) => drag.start != second.start || drag.end != second.end,
                None => false,
            },
            seek: match input.ruler {
                Some(place) => Some(time_at(shown, place as int, width, duration) as i64),
                None => None,
            },
        },
    )
}

/// A recording that can be sliced.
pub open spec fn sliceable(source: SliceSource) -> bool {
    0 < source.duration
}

/// A drag that can go on in this recording: one that moves a slice moves no more than there is.
pub open spec fn movable(drag: Option<Drag>, source: SliceSource) -> bool {
    drag matches Some(drag) ==> drag.kind is Move ==> 0 <= drag.end - drag.start
        <= source.duration
}

/// A drag that leaves no slice too short: one that moves a slice moves enough of the recording.
pub open spec fn drag_fits(drag: Option<Drag>, source: SliceSource) -> bool {
    drag matches Some(drag) ==> drag.kind is Move ==> minimum(source) <= drag.end - drag.start
        <= source.duration
}

/// The drag that one look goes on with, if any, can go on in this recording.
pub open spec fn goes_on(view: SliceView, source: SliceSource, input: SliceInput) -> bool {
    sliceable(source) && input.pressed is None && input.pointer is Some ==> movable(
        view.drag,
        source,
    )
}

proof fn lemma_floor(number: int, by: int)
    requires
        by > 0,
    ensures
        number < 0 ==> number / by == -((-number + by - 1) / by),
{
    if number < 0 {
        let up = (-number + by - 1) / by;
        let rest = (-number + by - 1) % by;
        assert(-number + by - 1 == up * by + rest && 0 <= rest < by) by (nonlinear_arith)
            requires
                by > 0,
                up == (-number + by - 1) / by,
                rest == (-number + by - 1) % by,
        ;
        assert(number == (-up) * by + (by - 1 - rest)) by (nonlinear_arith)
            requires
                -number + by - 1 == up * by + rest,
        ;
        vstd::arithmetic::div_mod::lemma_fundamental_div_mod_converse(
            number,
            by,
            -up,
            by - 1 - rest,
        );
    }
}

/// Division that rounds down.
fn floor(number: i128, by: i128) -> (whole: i128)
    requires
        by > 0,
        -0xffff_ffff_ffff_ffff_ffff_ffff <= number <= 0xffff_ffff_ffff_ffff_ffff_ffff,
        by <= 0xffff_ffff_ffff_ffff,
    ensures
        whole == number as int / (by as int),
        -0xffff_ffff_ffff_ffff_ffff_ffff - 1 <= whole <= 0xffff_ffff_ffff_ffff_ffff_ffff,
{
    proof {
        lemma_floor(number as int, by as int);
        assert(number >= 0 ==> 0 <= number as int / (by as int) <= number) by (nonlinear_arith)
            requires
                by > 0,
        ;
        assert(number < 0 ==> 0 <= (-number + by - 1) / (by as int) <= -number) by (nonlinear_arith)
            requires
                by > 0,
        ;
    }
    if number >= 0 {
        number / by
    } else {
        -((-number + by - 1) / by)
    }
}

fn keep(value: i128, low: i64, high: i64) -> (kept: i64)
    requires
        low <= high,
    ensures
        kept == clamped(value as int, low as int, high as int),
{
    if value < low as i128 {
        low
    } else if value > high as i128 {
        high
    } else {
        value as i64
    }
}

fn least_length(source: &SliceSource) -> (length: i64)
    requires
        sliceable(*source),
    ensures
        length == minimum(*source),
        0 < length <= source.duration,
{
    let wanted: i64 = if source.min_length > 0 {
        source.min_length
    } else {
        USUAL_FRAME
    };
    if wanted <= source.duration {
        wanted
    } else {
        source.duration
    }
}

fn normalize(offset: i128, span: i128, drag: Option<Drag>, source: &SliceSource) -> (view:
    SliceView)
    requires
        sliceable(*source),
    ensures
        view == normal(offset as int, span as int, drag, *source),
        shows(view, *source),
        view.drag == drag,
{
    let low: i64 = least_length(source);
    let wanted: i128 = if span <= 0 {
        source.duration as i128
    } else {
        span
    };
    let kept: i64 = keep(wanted, low, source.duration);
    SliceView { offset: keep(offset, 0, source.duration - kept), span: kept, drag }
}

proof fn lemma_product(left: int, right: int)
    requires
        -0x1_0000_0000 <= left <= 0x1_0000_0000,
        -0x7fff_ffff_ffff_ffff <= right <= 0x7fff_ffff_ffff_ffff,
    ensures
        -0xffff_ffff_ffff_ffff_ffff_ffff <= left * right <= 0xffff_ffff_ffff_ffff_ffff_ffff,
        left * right == right * left,
{
    assert(-0xffff_ffff_ffff_ffff_ffff_ffff <= left * right <= 0xffff_ffff_ffff_ffff_ffff_ffff)
        by (nonlinear_arith)
        requires
            -0x1_0000_0000 <= left <= 0x1_0000_0000,
            -0x7fff_ffff_ffff_ffff <= right <= 0x7fff_ffff_ffff_ffff,
    ;
    assert(left * right == right * left) by (nonlinear_arith);
}

fn find_time(view: &SliceView, place: i32, width: u32, source: &SliceSource) -> (time: i64)
    requires
        sliceable(*source),
        shows(*view, *source),
        width > 0,
    ensures
        time == time_at(*view, place as int, width as int, source.duration as int),
        0 <= time <= source.duration,
{
    proof {
        lemma_product(place as int, view.span as int);
    }
    let along: i128 = floor(place as i128 * view.span as i128, width as i128);
    keep(view.offset as i128 + along, 0, source.duration)
}

fn find_place(view: &SliceView, time: i64, width: u32, source: &SliceSource) -> (place: i128)
    requires
        sliceable(*source),
        shows(*view, *source),
        0 <= time <= source.duration,
    ensures
        place == place_of(*view, time as int, width as int),
        -0xffff_ffff_ffff_ffff_ffff_ffff - 1 <= place <= 0xffff_ffff_ffff_ffff_ffff_ffff,
{
    proof {
        lemma_product(width as int, time - view.offset);
    }
    floor((time as i128 - view.offset as i128) * width as i128, view.span as i128)
}

fn zoom_by(view: &SliceView, zoom: u32, anchor: i64, source: &SliceSource) -> (after: SliceView)
    requires
        sliceable(*source),
        shows(*view, *source),
        0 <= anchor <= source.duration,
    ensures
        after == zoomed(*view, zoom as int, anchor as int, *source),
        shows(after, *source),
        after.drag == view.drag,
{
    let low: i64 = least_length(source);
    let before: i64 = keep(anchor as i128 - view.offset as i128, 0, view.span);
    proof {
        lemma_product(zoom as int, view.span as int);
    }
    let span: i64 = keep(
        floor(view.span as i128 * zoom as i128, 1_000),
        low,
        source.duration,
    );
    assert(0 <= before * span <= 0x7fff_ffff_ffff_ffff * 0x7fff_ffff_ffff_ffff) by (nonlinear_arith)
        requires
            0 <= before <= 0x7fff_ffff_ffff_ffff,
            0 <= span <= 0x7fff_ffff_ffff_ffff,
    ;
    assert(0 <= (before * span) / (view.span as int) <= span) by (nonlinear_arith)
        requires
            0 <= before <= view.span,
            0 <= span,
            0 < view.span,
    ;
    let inside: i128 = before as i128 * span as i128 / view.span as i128;
    normalize(anchor as i128 - inside, span as i128, view.drag, source)
}

fn press_button(
    view: &SliceView,
    slice: &Slice,
    button: Option<ZoomButton>,
    source: &SliceSource,
) -> (after: SliceView)
    requires
        sliceable(*source),
        shows(*view, *source),
        fits(slice.start as int, slice.end as int, *source),
    ensures
        after == after_button(*view, *slice, button, *source),
        shows(after, *source),
        after.drag == view.drag,
{
    let center: i64 = view.offset + view.span / 2;
    match button {
        None => *view,
        Some(ZoomButton::Out) => zoom_by(view, 2_000, center, source),
        Some(ZoomButton::In) => zoom_by(view, 500, center, source),
        Some(ZoomButton::Fit) => SliceView {
            offset: 0,
            span: source.duration,
            drag: view.drag,
        },
        Some(ZoomButton::Slice) => {
            let length: i64 = slice.end - slice.start;
            let padding: i64 = length / 10;
            normalize(
                slice.start as i128 - padding as i128,
                length as i128 + padding as i128 * 2,
                view.drag,
                source,
            )
        },
        Some(ZoomButton::Scroll(offset)) => {
            if view.span < source.duration {
                SliceView {
                    offset: keep(offset as i128, 0, source.duration - view.span),
                    span: view.span,
                    drag: view.drag,
                }
            } else {
                *view
            }
        },
    }
}

fn turn_wheel(view: &SliceView, input: &SliceInput, source: &SliceSource) -> (after: SliceView)
    requires
        sliceable(*source),
        shows(*view, *source),
        input.width > 0,
    ensures
        after == after_wheel(*view, *input, *source),
        shows(after, *source),
        after.drag == view.drag,
{
    match input.hover {
        None => *view,
        Some(place) => {
            let anchor: i64 = find_time(view, place, input.width, source);
            let near = if input.zoom == 1_000 {
                *view
            } else {
                zoom_by(view, input.zoom, anchor, source)
            };
            if input.pan == 0 {
                near
            } else {
                proof {
                    lemma_product(input.pan as int, near.span as int);
                }
                let along: i128 = floor(
                    input.pan as i128 * near.span as i128,
                    input.width as i128,
                );
                normalize(near.offset as i128 - along, near.span as i128, near.drag, source)
            }
        },
    }
}

fn apart(left: i128, right: i128) -> (gap: i128)
    requires
        -0xffff_ffff_ffff_ffff_ffff_ffff_ffff <= left <= 0xffff_ffff_ffff_ffff_ffff_ffff_ffff,
        -0xffff_ffff_ffff_ffff_ffff_ffff_ffff <= right <= 0xffff_ffff_ffff_ffff_ffff_ffff_ffff,
    ensures
        gap == distance(left as int, right as int),
{
    if left <= right {
        right - left
    } else {
        left - right
    }
}

fn find_kind(
    view: &SliceView,
    slice: &Slice,
    place: i32,
    width: u32,
    shift: bool,
    source: &SliceSource,
) -> (kind: DragKind)
    requires
        sliceable(*source),
        shows(*view, *source),
        fits(slice.start as int, slice.end as int, *source),
        width > 0,
    ensures
        kind == drag_kind(
            *view,
            *slice,
            place as int,
            width as int,
            shift,
            source.duration as int,
        ),
{
    let low: i64 = least_length(source);
    let anchor: i64 = find_time(view, place, width, source);
    let to_start: i128 = apart(place as i128, find_place(view, slice.start, width, source));
    let to_end: i128 = apart(place as i128, find_place(view, slice.end, width, source));
    let nearest: i128 = if to_start <= to_end {
        to_start
    } else {
        to_end
    };
    if nearest <= HANDLE_REACH as i128 {
        if to_start <= to_end {
            DragKind::Start
        } else {
            DragKind::End
        }
    } else if slice.start < anchor && anchor < slice.end && slice.end - slice.start
        < source.duration && !shift {
        DragKind::Move
    } else {
        DragKind::Select
    }
}

fn start_drag(
    view: &SliceView,
    slice: &Slice,
    place: i32,
    input: &SliceInput,
    source: &SliceSource,
) -> (drag: Drag)
    requires
        sliceable(*source),
        shows(*view, *source),
        fits(slice.start as int, slice.end as int, *source),
        input.width > 0,
        input.pressed == Some(place),
    ensures
        Some(drag) == drag_after(*view, *slice, *input, *source),
        drag_fits(Some(drag), *source),
{
    let anchor: i64 = find_time(view, place, input.width, source);
    let kind = find_kind(view, slice, place, input.width, input.shift, source);
    Drag { kind, anchor, start: slice.start, end: slice.end }
}

fn drag_to(slice: &Slice, drag: &Drag, time: i64, source: &SliceSource) -> (after: Slice)
    requires
        sliceable(*source),
        fits(slice.start as int, slice.end as int, *source),
        movable(Some(*drag), *source),
        0 <= time <= source.duration,
    ensures
        after == dragged(*slice, *drag, time as int, *source),
        drag_fits(Some(*drag), *source) ==> fits(after.start as int, after.end as int, *source),
{
    let low: i64 = least_length(source);
    match drag.kind {
        DragKind::Start => Slice {
            start: keep(time as i128, 0, slice.end - low),
            end: slice.end,
        },
        DragKind::End => Slice {
            start: slice.start,
            end: keep(time as i128, slice.start + low, source.duration),
        },
        DragKind::Move => {
            let length: i64 = (drag.end as i128 - drag.start as i128) as i64;
            let start: i64 = keep(
                drag.start as i128 + time as i128 - drag.anchor as i128,
                0,
                source.duration - length,
            );
            Slice { start, end: start + length }
        },
        DragKind::Select => {
            let (first, last) = if drag.anchor <= time {
                (drag.anchor, time)
            } else {
                (time, drag.anchor)
            };
            let start: i64 = keep(first as i128, 0, source.duration - low);
            let end: i64 = keep(last as i128, start + low, source.duration);
            Slice { start, end }
        },
    }
}

/// A slice brought into the recording.
pub fn fit(slice: &Slice, source: &SliceSource) -> (kept: Slice)
    requires
        sliceable(*source),
    ensures
        kept == fitted(*slice, *source),
        fits(kept.start as int, kept.end as int, *source),
{
    let low: i64 = least_length(source);
    let start: i64 = keep(slice.start as i128, 0, source.duration - low);
    let end: i64 = keep(slice.end as i128, start + low, source.duration);
    Slice { start, end }
}

impl SliceView {
    /// A view that has shown nothing yet.
    pub fn new() -> (view: Self)
        ensures
            view == (SliceView { offset: 0, span: 0, drag: None }),
    {
        SliceView { offset: 0, span: 0, drag: None }
    }

    /// One look at the waveform: the slice is a draft until `finished`.
    pub fn slice_waveform(
        &mut self,
        slice: &mut Slice,
        source: &SliceSource,
        input: &SliceInput,
    ) -> (response: SliceResponse)
        requires
            input.width > 0,
            goes_on(*old(self), *source, *input),
        ensures
            !sliceable(*source) ==> *final(self) == *old(self) && *final(slice) == *old(slice)
                && response == (SliceResponse { changed: false, finished: false, seek: None }),
            sliceable(*source) ==> {
                &&& (*final(self), *final(slice), response) == slice_step(
                    *old(self),
                    *old(slice),
                    *source,
                    *input,
                )
                &&& shows(*final(self), *source)
                &&& drag_fits(old(self).drag, *source) ==> fits(
                    final(slice).start as int,
                    final(slice).end as int,
                    *source,
                )
            },
            drag_fits(old(self).drag, *source) ==> drag_fits(final(self).drag, *source),
    {
        if source.duration <= 0 {
            return SliceResponse { changed: false, finished: false, seek: None };
        }
        let first = fit(slice, source);
        let view = normalize(self.offset as i128, self.span as i128, self.drag, source);
        let view = press_button(&view, &first, input.button, source);
        let view = turn_wheel(&view, input, source);
        let seek: Option<i64> = match input.ruler {
            Some(place) => Some(find_time(&view, place, input.width, source)),
            None => None,
        };
        let drag: Option<Drag> = match input.pressed {
            Some(place) => Some(start_drag(&view, &first, place, input, source)),
            None => view.drag,
        };
        let mut second = first;
        if let Some(drag) = drag {
            if let Some(place) = input.pointer {
                let time: i64 = find_time(&view, place, input.width, source);
                second = drag_to(&first, &drag, time, source);
            }
        }
        let finished = match drag {
            Some(drag) => input.released && (drag.start != second.start || drag.end != second.end),
            None => false,
        };
        *slice = second;
        *self = SliceView {
            offset: view.offset,
            span: view.span,
            drag: if input.released {
                None
            } else {
                drag
            },
        };
        SliceResponse {
            changed: second.start != first.start || second.end != first.end,
            finished,
            seek,
        }
    }

    /// What a drag from a place would change.
    pub fn hold(&self, slice: &Slice, place: i32, width: u32, shift: bool, source: &SliceSource)
        -> (kind: DragKind)
        requires
            sliceable(*source),
            shows(*self, *source),
            fits(slice.start as int, slice.end as int, *source),
            width > 0,
        ensures
            kind == drag_kind(
                *self,
                *slice,
                place as int,
                width as int,
                shift,
                source.duration as int,
            ),
    {
        find_kind(self, slice, place, width, shift, source)
    }
}

proof fn lemma_fitted(slice: Slice, source: SliceSource)
    requires
        sliceable(source),
    ensures
        fits(fitted(slice, source).start as int, fitted(slice, source).end as int, source),
{
}

proof fn lemma_drag_after(view: SliceView, slice: Slice, input: SliceInput, source: SliceSource)
    requires
        sliceable(source),
        fits(slice.start as int, slice.end as int, source),
        drag_fits(view.drag, source),
    ensures
        drag_fits(drag_after(view, slice, input, source), source),
{
    if let Some(place) = input.pressed {
        let anchor = time_at(view, place as int, input.width as int, source.duration as int);
        assert(0 <= anchor <= source.duration);
    }
}

proof fn lemma_dragged(slice: Slice, drag: Drag, time: int, source: SliceSource)
    requires
        sliceable(source),
        fits(slice.start as int, slice.end as int, source),
        drag_fits(Some(drag), source),
        0 <= time <= source.duration,
    ensures
        ({
            let after = dragged(slice, drag, time, source);
            fits(after.start as int, after.end as int, source)
        }),
{
}

proof fn lemma_wheel_keeps_drag(view: SliceView, input: SliceInput, source: SliceSource)
    ensures
        after_wheel(view, input, source).drag == view.drag,
{
}

proof fn lemma_button_keeps_drag(
    view: SliceView,
    slice: Slice,
    button: Option<ZoomButton>,
    source: SliceSource,
)
    ensures
        after_button(view, slice, button, source).drag == view.drag,
{
}

/// A slice is never empty and never leaves the recording, whatever the pointer does.
pub proof fn slices_stay_in_the_recording(
    view: SliceView,
    slice: Slice,
    source: SliceSource,
    input: SliceInput,
)
    requires
        sliceable(source),
        input.width > 0,
        drag_fits(view.drag, source),
    ensures
        fits(
            slice_step(view, slice, source, input).1.start as int,
            slice_step(view, slice, source, input).1.end as int,
            source,
        ),
{
    let first = fitted(slice, source);
    let normal_view = normal(view.offset as int, view.span as int, view.drag, source);
    let pressed = after_button(normal_view, first, input.button, source);
    let shown = after_wheel(pressed, input, source);
    lemma_fitted(slice, source);
    lemma_button_keeps_drag(normal_view, first, input.button, source);
    lemma_wheel_keeps_drag(pressed, input, source);
    lemma_drag_after(shown, first, input, source);
    if let Some(drag) = drag_after(shown, first, input, source) {
        if let Some(place) = input.pointer {
            let time = time_at(shown, place as int, input.width as int, source.duration as int);
            assert(0 <= time <= source.duration);
            lemma_dragged(first, drag, time, source);
        }
    }
}

/// Looking closer, moving the view and listening leave the slice as it is.
pub proof fn looking_never_crops(
    view: SliceView,
    slice: Slice,
    source: SliceSource,
    input: SliceInput,
)
    requires
        sliceable(source),
        fits(slice.start as int, slice.end as int, source),
        view.drag is None,
        input.pressed is None,
    ensures
        slice_step(view, slice, source, input).1 == slice,
        !slice_step(view, slice, source, input).2.changed,
        !slice_step(view, slice, source, input).2.finished,
{
}

/// A slice is only taken over when the pointer lets go.
pub proof fn slices_are_committed_on_release(
    view: SliceView,
    slice: Slice,
    source: SliceSource,
    input: SliceInput,
)
    ensures
        slice_step(view, slice, source, input).2.finished ==> input.released,
        input.released ==> slice_step(view, slice, source, input).0.drag is None,
{
}

/// Moving a slice keeps its length.
pub proof fn moving_keeps_the_length(
    slice: Slice,
    drag: Drag,
    time: int,
    source: SliceSource,
)
    requires
        sliceable(source),
        drag.kind is Move,
        drag_fits(Some(drag), source),
        0 <= time <= source.duration,
    ensures
        ({
            let after = dragged(slice, drag, time, source);
            after.end - after.start == drag.end - drag.start
        }),
{
}

/// A slice that is moved follows the pointer: both ends go as far as the pointer went from where
/// it took hold, as long as the recording reaches; beyond that the slice rests at the end of the
/// recording that it was moved towards.
pub proof fn moved_slices_follow_the_pointer(
    slice: Slice,
    drag: Drag,
    time: int,
    source: SliceSource,
)
    requires
        sliceable(source),
        drag.kind is Move,
        0 <= drag.end - drag.start <= source.duration,
    ensures
        ({
            let after = dragged(slice, drag, time, source);
            let by = time - drag.anchor;
            &&& 0 <= drag.start + by && drag.end + by <= source.duration ==> after.start
                == drag.start + by && after.end == drag.end + by
            &&& drag.start + by < 0 ==> after.start == 0 && after.end == drag.end - drag.start
            &&& drag.end + by > source.duration ==> after.end == source.duration && after.start
                == source.duration - (drag.end - drag.start)
        }),
{
}

/// The edge of a slice that is dragged follows the pointer while the slice stays long enough and
/// in the recording; the other edge stays.
pub proof fn dragged_edges_follow_the_pointer(
    slice: Slice,
    drag: Drag,
    time: int,
    source: SliceSource,
)
    requires
        sliceable(source),
        0 <= slice.start,
        slice.end <= source.duration,
        0 <= time <= source.duration,
    ensures
        ({
            let after = dragged(slice, drag, time, source);
            let usual = if source.min_length > 0 {
                source.min_length as int
            } else {
                20_833
            };
            let shortest = if usual < source.duration {
                usual
            } else {
                source.duration as int
            };
            &&& drag.kind is Start && slice.end >= shortest ==> {
                &&& after.end == slice.end
                &&& time <= slice.end - shortest ==> after.start == time
                &&& time > slice.end - shortest ==> after.start == slice.end - shortest
            }
            &&& drag.kind is End && slice.start + shortest <= source.duration ==> {
                &&& after.start == slice.start
                &&& slice.start + shortest <= time ==> after.end == time
                &&& slice.start + shortest > time ==> after.end == slice.start + shortest
            }
            &&& drag.kind is Select && drag.anchor <= time && 0 <= drag.anchor <= source.duration
                - shortest ==> after.start == drag.anchor && (drag.anchor + shortest <= time
                ==> after.end == time) && (drag.anchor + shortest > time ==> after.end
                == drag.anchor + shortest)
            &&& drag.kind is Select && time < drag.anchor <= source.duration && time
                <= source.duration - shortest ==> after.start == time && (time + shortest
                <= drag.anchor ==> after.end == drag.anchor) && (time + shortest > drag.anchor
                ==> after.end == time + shortest)
        }),
{
}

/// Zooming leaves the time that it is about in its place, to within the rounding of a time,
/// unless the view would leave the recording: it then rests at one of its ends. It shows so many
/// thousandths of what it showed, within what there is to show.
pub proof fn zooming_keeps_its_time_in_place(
    view: SliceView,
    zoom: int,
    anchor: int,
    source: SliceSource,
)
    requires
        sliceable(source),
        shows(view, source),
        0 <= zoom,
        view.offset <= anchor <= view.offset + view.span,
    ensures
        ({
            let after = zoomed(view, zoom, anchor, source);
            &&& after.offset == 0 || after.offset + after.span == source.duration || 0 <= (anchor
                - view.offset) * after.span - (anchor - after.offset) * view.span < view.span
            &&& view.span * zoom / 1_000 > source.duration ==> after.span == source.duration
            &&& minimum(source) <= view.span * zoom / 1_000 <= source.duration ==> 1_000
                * after.span <= view.span * zoom < 1_000 * (after.span + 1)
            &&& after.drag == view.drag
            &&& shows(after, source)
        }),
{
    let before = anchor - view.offset;
    let wanted = view.span * zoom;
    let span = clamped(wanted / 1_000, minimum(source), source.duration as int);
    let total = before * span;
    let shift = total / (view.span as int);
    vstd::arithmetic::div_mod::lemma_fundamental_div_mod(total, view.span as int);
    assert(0 <= total % (view.span as int) < view.span) by (nonlinear_arith)
        requires
            view.span > 0,
    ;
    assert(shift * view.span == view.span * shift) by (nonlinear_arith);
    let after = zoomed(view, zoom, anchor, source);
    assert(after.span == span);
    if after.offset != 0 && after.offset + after.span != source.duration {
        assert(after.offset == anchor - shift);
    }
}

/// The buttons show what they say: twice as much, half as much, everything, or the slice with a
/// tenth of it to either side; the bar shows as much as before from elsewhere.
pub proof fn buttons_show_what_they_say(
    view: SliceView,
    slice: Slice,
    source: SliceSource,
    offset: i64,
)
    requires
        sliceable(source),
        shows(view, source),
        0 <= slice.start < slice.end <= source.duration,
        slice.end - slice.start >= minimum(source),
    ensures
        ({
            let wide = after_button(view, slice, Some(ZoomButton::Out), source);
            let near = after_button(view, slice, Some(ZoomButton::In), source);
            let whole = after_button(view, slice, Some(ZoomButton::Fit), source);
            let part = after_button(view, slice, Some(ZoomButton::Slice), source);
            let scrolled = after_button(view, slice, Some(ZoomButton::Scroll(offset)), source);
            let tenth = (slice.end - slice.start) / 10;
            &&& 2 * view.span <= source.duration && 2 * view.span >= minimum(source) ==> wide.span
                == 2 * view.span
            &&& 2 * view.span > source.duration ==> wide.span == source.duration
            &&& view.span / 2 >= minimum(source) ==> near.span == view.span / 2
            &&& whole.offset == 0 && whole.span == source.duration
            &&& part.offset <= slice.start && slice.end <= part.offset + part.span
            &&& slice.start - tenth >= 0 && slice.end + tenth <= source.duration ==> part.offset
                == slice.start - tenth && part.span == slice.end - slice.start + 2 * tenth
            &&& scrolled.span == view.span
            &&& 0 <= offset <= source.duration - view.span && view.span < source.duration
                ==> scrolled.offset == offset
            &&& after_button(view, slice, None, source) == view
        }),
{
}

/// Times and places are in proportion: the left edge shows where the view starts, the right edge
/// where it ends, and a place between them the time as far along, rounded down.
pub proof fn places_show_times_in_proportion(
    view: SliceView,
    place: int,
    width: int,
    source: SliceSource,
)
    requires
        sliceable(source),
        shows(view, source),
        0 < width,
        0 <= place <= width,
    ensures
        ({
            let time = time_at(view, place, width, source.duration as int);
            &&& width * (time - view.offset) <= place * view.span < width * (time - view.offset + 1)
            &&& place == 0 ==> time == view.offset
            &&& place == width ==> time == view.offset + view.span
            &&& view.offset <= time <= view.offset + view.span
        }),
{
    let total = place * view.span;
    let along = total / width;
    vstd::arithmetic::div_mod::lemma_fundamental_div_mod(total, width);
    assert(0 <= total % width < width) by (nonlinear_arith)
        requires
            0 < width,
    ;
    assert(0 <= total <= width * view.span) by (nonlinear_arith)
        requires
            total == place * view.span,
            0 <= place <= width,
            0 < view.span,
    ;
    assert(width * (along + 1) == width * along + width) by (nonlinear_arith);
    assert(0 <= along <= view.span) by (nonlinear_arith)
        requires
            width * along <= total,
            total < width * (along + 1),
            0 <= total <= width * view.span,
            0 < width,
    ;
    if place == width {
        assert(along == view.span) by (nonlinear_arith)
            requires
                width * along <= total,
                total < width * (along + 1),
                total == width * view.span,
                0 < width,
        ;
    }
}

/// A time stands as far along the waveform as it is along the view.
pub proof fn times_stand_in_proportion(view: SliceView, time: int, width: int)
    requires
        0 < view.span,
    ensures
        view.span * place_of(view, time, width) <= (time - view.offset) * width < view.span * (
        place_of(view, time, width) + 1),
{
    let total = (time - view.offset) * width;
    vstd::arithmetic::div_mod::lemma_fundamental_div_mod(total, view.span as int);
    assert(0 <= total % (view.span as int) < view.span) by (nonlinear_arith)
        requires
            0 < view.span,
    ;
    let place = total / (view.span as int);
    assert(view.span * (place + 1) == view.span * place + view.span) by (nonlinear_arith);
}

/// A press within nine points of an edge takes hold of the nearer edge; one within the slice
/// moves it, unless shift is held or the slice is everything; any other chooses anew.
pub proof fn presses_take_hold_of_what_is_near(
    view: SliceView,
    slice: Slice,
    place: int,
    width: int,
    shift: bool,
    duration: int,
)
    ensures
        ({
            let kind = drag_kind(view, slice, place, width, shift, duration);
            let left = place - place_of(view, slice.start as int, width);
            let right = place - place_of(view, slice.end as int, width);
            let time = time_at(view, place, width, duration);
            &&& left == 0 ==> kind is Start
            &&& right == 0 && left != 0 ==> kind is End
            &&& kind is Start ==> -9_000 <= left <= 9_000 && (left * left <= right * right || right
                > 9_000 || right < -9_000)
            &&& kind is End ==> -9_000 <= right <= 9_000
            &&& -9_000 <= left <= 9_000 && !(-9_000 <= right <= 9_000) ==> kind is Start
            &&& -9_000 <= right <= 9_000 && !(-9_000 <= left <= 9_000) ==> kind is End
            &&& !(-9_000 <= left <= 9_000) && !(-9_000 <= right <= 9_000) ==> (kind is Move <==> !shift
                && slice.start < time < slice.end && slice.end - slice.start < duration)
            &&& !(-9_000 <= left <= 9_000) && !(-9_000 <= right <= 9_000) ==> kind is Move || kind
                is Select
        }),
{
    let left = place - place_of(view, slice.start as int, width);
    let right = place - place_of(view, slice.end as int, width);
    let a = if left < 0 {
        -left
    } else {
        left
    };
    let b = if right < 0 {
        -right
    } else {
        right
    };
    assert(left * left == a * a) by (nonlinear_arith)
        requires
            a == left || a == -left,
    ;
    assert(right * right == b * b) by (nonlinear_arith)
        requires
            b == right || b == -right,
    ;
    if a <= b {
        assert(a * a <= b * b) by (nonlinear_arith)
            requires
                0 <= a <= b,
        ;
    }
}

/// One look at the waveform: without a drag the slice stays, with one it goes where the pointer
/// is; a click on the ruler listens from the time that is shown there; letting go ends the drag.
pub proof fn looks_do_what_the_pointer_does(
    view: SliceView,
    slice: Slice,
    source: SliceSource,
    input: SliceInput,
)
    requires
        sliceable(source),
        fits(slice.start as int, slice.end as int, source),
    ensures
        ({
            let (shown, after, response) = slice_step(view, slice, source, input);
            &&& view.drag is None && input.pressed is None ==> after == slice
                && !response.finished
            &&& input.pointer is None ==> after == slice
            &&& response.changed <==> after != slice
            &&& input.released ==> shown.drag is None
            &&& !input.released && input.pressed is Some ==> (shown.drag matches Some(drag)
                && drag.start == slice.start && drag.end == slice.end && drag.anchor == time_at(
                shown,
                input.pressed->0 as int,
                input.width as int,
                source.duration as int,
            ) as i64)
            &&& !input.released && input.pressed is None ==> shown.drag == view.drag
            &&& response.finished ==> input.released
            &&& input.ruler is None ==> response.seek is None
            &&& input.ruler matches Some(place) ==> response.seek == Some(
                time_at(shown, place as int, input.width as int, source.duration as int) as i64,
            )
        }),
{
}

} // verus!
