//! Which stretch of a rendered timeline is kept in memory.
//!
//! Rendered audio is held in fixed-size pages under a byte budget. A
//! [`PageWindow`] names the resident frames: one run of pages around the frame
//! of interest, and, when a second frame (the start of a playing loop) lies
//! outside that run, a short second run around it.
use vstd::prelude::*;

verus! {

/// Frames in one page.
pub const AUDIO_PAGE_FRAMES: u64 = 65_536;

/// Bytes of rendered samples that may stay resident.
pub const AUDIO_PAGE_BYTES: u64 = 33_554_432;

/// Bytes of one channel of one page, at four bytes a sample.
pub const PAGE_CHANNEL_BYTES: u64 = 262_144;

/// Pages that are prepared ahead of a moving playhead.
pub const AUDIO_PREPARE_LEAD_PAGES: u64 = 8;

/// Pages reserved for the second frame of interest.
pub const SECONDARY_PAGES: u64 = 4;

/// Frames that are prepared ahead of a moving playhead.
pub open spec fn lead_frames() -> int {
    AUDIO_PREPARE_LEAD_PAGES * AUDIO_PAGE_FRAMES
}

/// The smaller of two numbers.
pub open spec fn least(a: int, b: int) -> int {
    if a <= b {
        a
    } else {
        b
    }
}

/// The larger of two numbers.
pub open spec fn greatest(a: int, b: int) -> int {
    if a >= b {
        a
    } else {
        b
    }
}

/// The resident frames of a rendered timeline.
#[derive(Clone, Copy, Debug, PartialEq, Eq, Structural)]
pub struct PageWindow {
    pub start_frame: u64,
    pub end_frame: u64,
    pub secondary_start_frame: u64,
    pub secondary_end_frame: u64,
    pub total_frames: u64,
}

impl PageWindow {
    /// Whether a frame lies in one of the two runs.
    pub open spec fn holds(self, frame: int) -> bool {
        ||| self.start_frame <= frame < self.end_frame
        ||| self.secondary_start_frame <= frame < self.secondary_end_frame
    }

    /// The number of resident frames, counting a frame in both runs twice.
    pub open spec fn resident_frames(self) -> int {
        (self.end_frame - self.start_frame) + (self.secondary_end_frame
            - self.secondary_start_frame)
    }

    /// Both runs start on a page and end on a page or at the end of the timeline.
    pub open spec fn aligned(self) -> bool {
        &&& run_aligned(self.start_frame as int, self.end_frame as int, self.total_frames as int)
        &&& run_aligned(
            self.secondary_start_frame as int,
            self.secondary_end_frame as int,
            self.total_frames as int,
        )
    }

    /// The window of a timeline that holds nothing.
    pub fn empty(total_frames: u64) -> (window: Self)
        ensures
            window == (PageWindow {
                start_frame: 0,
                end_frame: 0,
                secondary_start_frame: 0,
                secondary_end_frame: 0,
                total_frames,
            }),
    {
        PageWindow {
            start_frame: 0,
            end_frame: 0,
            secondary_start_frame: 0,
            secondary_end_frame: 0,
            total_frames,
        }
    }

    /// Whether `frame` is resident.
    pub fn contains(self, frame: u64) -> (resident: bool)
        ensures
            resident == self.holds(frame as int),
    {
        (self.start_frame <= frame && frame < self.end_frame) || (self.secondary_start_frame
            <= frame && frame < self.secondary_end_frame)
    }
}

/// A run of frames that starts on a page and ends on a page or with the timeline.
pub open spec fn run_aligned(start: int, end: int, total: int) -> bool {
    &&& 0 <= start <= end <= total
    &&& start % AUDIO_PAGE_FRAMES as int == 0
    &&& end % AUDIO_PAGE_FRAMES as int == 0 || end == total
}

/// Pages that fit the byte budget at a channel count; never fewer than one.
pub open spec fn maximum_pages(channels: int) -> int {
    greatest(1, AUDIO_PAGE_BYTES as int / (PAGE_CHANNEL_BYTES * channels))
}

/// Pages that cover a timeline.
pub open spec fn page_count(total: int) -> int {
    (total + AUDIO_PAGE_FRAMES - 1) / AUDIO_PAGE_FRAMES as int
}

/// The page of a frame, where a frame past the end counts as the last one.
pub open spec fn page_of(frame: int, total: int) -> int {
    least(frame, total - 1) / AUDIO_PAGE_FRAMES as int
}

/// First page of a run of `pages` pages that begins `before` pages ahead of `page`,
/// moved where needed to lie inside the timeline.
pub open spec fn run_start(page: int, before: int, pages: int, count: int) -> int {
    least(greatest(page - before, 0), greatest(count - pages, 0))
}

/// The page after the last one of a run.
pub open spec fn run_end(start: int, pages: int, count: int) -> int {
    least(start + pages, count)
}

/// Whether a run with the whole budget around `focus_page` would hold `page`.
pub open spec fn full_run_holds(page: int, focus_page: int, maximum: int, count: int) -> bool {
    let start = run_start(focus_page, maximum / 4, maximum, count);
    start <= page < run_end(start, maximum, count)
}

/// Pages taken from the budget for the second frame of interest.
pub open spec fn reserved_pages(
    total: int,
    channels: int,
    focus: int,
    secondary: Option<u64>,
) -> int {
    let maximum = maximum_pages(channels);
    match secondary {
        Some(frame) => if full_run_holds(
            page_of(frame as int, total),
            page_of(focus, total),
            maximum,
            page_count(total),
        ) {
            0
        } else {
            least(maximum, SECONDARY_PAGES as int)
        },
        None => 0,
    }
}

/// Pages left for the run around the frame of interest.
pub open spec fn primary_pages(
    total: int,
    channels: int,
    focus: int,
    secondary: Option<u64>,
) -> int {
    greatest(maximum_pages(channels) - reserved_pages(total, channels, focus, secondary), 1)
}

/// The window that [`page_window`] chooses.
pub open spec fn chosen_window(
    window: PageWindow,
    total: int,
    channels: int,
    focus: int,
    secondary: Option<u64>,
) -> bool {
    let page = AUDIO_PAGE_FRAMES as int;
    let count = page_count(total);
    let primary = primary_pages(total, channels, focus, secondary);
    let start = run_start(page_of(focus, total), primary / 4, primary, count);
    let end = run_end(start, primary, count);
    let reserved = reserved_pages(total, channels, focus, secondary);
    &&& window.total_frames == total
    &&& if total == 0 {
        &&& window.start_frame == 0 && window.end_frame == 0
        &&& window.secondary_start_frame == 0 && window.secondary_end_frame == 0
    } else {
        &&& window.start_frame == start * page
        &&& window.end_frame == least(end * page, total)
        &&& if reserved == 0 {
            window.secondary_start_frame == 0 && window.secondary_end_frame == 0
        } else {
            let second = run_start(page_of(secondary->0 as int, total), 1, reserved, count);
            &&& window.secondary_start_frame == second * page
            &&& window.secondary_end_frame == least(run_end(second, reserved, count) * page, total)
        }
    }
}

fn minimum(a: u64, b: u64) -> (least_value: u64)
    ensures
        least_value == least(a as int, b as int),
{
    if a <= b {
        a
    } else {
        b
    }
}

/// Pages that fit the budget at `channels` channels.
pub fn budget_pages(channels: usize) -> (pages: u64)
    requires
        channels > 0,
    ensures
        pages == maximum_pages(channels as int),
        1 <= pages <= 128,
{
    let channel_bytes: u128 = PAGE_CHANNEL_BYTES as u128;
    let bytes_per_page: u128 = channel_bytes * channels as u128;
    assert(bytes_per_page > 0) by (nonlinear_arith)
        requires
            bytes_per_page == channel_bytes * channels,
            channel_bytes == 262_144,
            channels > 0,
    ;
    let fitting: u128 = AUDIO_PAGE_BYTES as u128 / bytes_per_page;
    proof {
        lemma_budget(channels as int);
    }
    if fitting >= 1 {
        fitting as u64
    } else {
        1
    }
}

proof fn lemma_budget(channels: int)
    requires
        channels > 0,
    ensures
        0 <= AUDIO_PAGE_BYTES as int / (PAGE_CHANNEL_BYTES * channels) <= 128,
        AUDIO_PAGE_BYTES as int / (PAGE_CHANNEL_BYTES * channels) == 128int
            / channels,
{
    vstd::arithmetic::div_mod::lemma_div_denominator(AUDIO_PAGE_BYTES as int, 262144, channels);
    assert(AUDIO_PAGE_BYTES as int / 262144 == 128);
    vstd::arithmetic::div_mod::lemma_div_is_ordered_by_denominator(128, 1, channels);
    vstd::arithmetic::div_mod::lemma_div_pos_is_pos(128, channels);
}

/// A run of pages as frames: its first frame and the frame after its last.
fn run_frames(page: u64, before: u64, pages: u64, count: u64, total: u64) -> (frames: (u64, u64))
    requires
        0 < total,
        count == page_count(total as int),
        page < count,
        0 < pages <= 128,
    ensures
        frames.0 == run_start(page as int, before as int, pages as int, count as int)
            * AUDIO_PAGE_FRAMES,
        frames.1 == least(
            run_end(
                run_start(page as int, before as int, pages as int, count as int),
                pages as int,
                count as int,
            ) * AUDIO_PAGE_FRAMES,
            total as int,
        ),
        run_aligned(frames.0 as int, frames.1 as int, total as int),
        frames.0 < frames.1,
{
    let latest: u64 = count.saturating_sub(pages);
    let start: u64 = minimum(page.saturating_sub(before), latest);
    let end: u64 = minimum(start + pages, count);
    let end_frame: u64 = if end < count {
        end * AUDIO_PAGE_FRAMES
    } else {
        total
    };
    (start * AUDIO_PAGE_FRAMES, end_frame)
}

/// Chooses the frames of a timeline of `total_frames` frames that stay in memory.
///
/// The run around `focus_frame` keeps a quarter of its pages behind the frame.
/// Where `secondary_frame` would fall outside it, up to four pages of the budget
/// are given to a second run that starts one page ahead of that frame.
pub fn page_window(
    total_frames: u64,
    channels: usize,
    focus_frame: u64,
    secondary_frame: Option<u64>,
) -> (window: PageWindow)
    requires
        total_frames == 0 || channels > 0,
    ensures
        chosen_window(
            window,
            total_frames as int,
            channels as int,
            focus_frame as int,
            secondary_frame,
        ),
        window.aligned(),
{
    if total_frames == 0 {
        return PageWindow::empty(total_frames);
    }
    let maximum: u64 = budget_pages(channels);
    let count: u64 = (total_frames - 1) / AUDIO_PAGE_FRAMES + 1;
    let focus_page: u64 = minimum(focus_frame, total_frames - 1) / AUDIO_PAGE_FRAMES;
    let full_start: u64 = minimum(
        focus_page.saturating_sub(maximum / 4),
        count.saturating_sub(maximum),
    );
    let full_end: u64 = minimum(full_start + maximum, count);
    let secondary_page: u64 = match secondary_frame {
        Some(frame) => minimum(frame, total_frames - 1) / AUDIO_PAGE_FRAMES,
        None => full_start,
    };
    let reserved: u64 = if full_start <= secondary_page && secondary_page < full_end {
        0
    } else {
        minimum(maximum, SECONDARY_PAGES)
    };
    let primary: u64 = if maximum > reserved {
        maximum - reserved
    } else {
        1
    };
    let (start_frame, end_frame) = run_frames(focus_page, primary / 4, primary, count, total_frames);
    let (secondary_start_frame, secondary_end_frame) = if reserved == 0 {
        (0, 0)
    } else {
        run_frames(secondary_page, 1, reserved, count, total_frames)
    };
    PageWindow {
        start_frame,
        end_frame,
        secondary_start_frame,
        secondary_end_frame,
        total_frames,
    }
}

/// A page to render: its first frame and its length.
#[derive(Clone, Copy, Debug, PartialEq, Eq, Structural)]
pub struct PageRequest {
    pub start_frame: u64,
    pub frames: u64,
}

/// The pages of the run `start..end` that are not in `ready`, in ascending order.
pub open spec fn wanted_pages(start: int, end: int, ready: Seq<u64>) -> Seq<PageRequest>
    decreases greatest(end - start, 0),
{
    if start >= end {
        Seq::empty()
    } else {
        let rest = wanted_pages(start + AUDIO_PAGE_FRAMES, end, ready);
        if ready.contains(start as u64) {
            rest
        } else {
            seq![
                PageRequest {
                    start_frame: start as u64,
                    frames: least(end - start, AUDIO_PAGE_FRAMES as int) as u64,
                },
            ] + rest
        }
    }
}

/// The first frames of planned pages.
pub open spec fn planned_starts(plan: Seq<PageRequest>) -> Seq<u64> {
    plan.map_values(|request: PageRequest| request.start_frame)
}

/// The pages a window still lacks: those of the first run, then those of the second
/// run that the first did not bring.
pub open spec fn lacking_pages(window: PageWindow, ready: Seq<u64>) -> Seq<PageRequest> {
    let first = wanted_pages(window.start_frame as int, window.end_frame as int, ready);
    first + wanted_pages(
        window.secondary_start_frame as int,
        window.secondary_end_frame as int,
        ready + planned_starts(first),
    )
}

/// Whether a page that starts at `start` is among `ready`.
fn is_ready(ready: &Vec<u64>, start: u64) -> (found: bool)
    ensures
        found == ready@.contains(start),
{
    let mut index: usize = 0;
    while index < ready.len()
        invariant
            index <= ready.len(),
            forall|i: int| 0 <= i < index ==> ready[i] != start,
        decreases ready.len() - index,
    {
        if ready[index] == start {
            assert(ready@[index as int] == start);
            return true;
        }
        index += 1;
    }
    false
}

/// Appends the wanted pages of one run to `plan`.
fn plan_run(start: u64, end: u64, total: u64, ready: &mut Vec<u64>, plan: &mut Vec<PageRequest>)
    requires
        run_aligned(start as int, end as int, total as int),
    ensures
        final(plan)@ == old(plan)@ + wanted_pages(start as int, end as int, old(ready)@),
        final(ready)@ == old(ready)@ + planned_starts(
            wanted_pages(start as int, end as int, old(ready)@),
        ),
{
    let ghost before = ready@;
    let ghost run = wanted_pages(start as int, end as int, before);
    let mut next: u64 = start;
    while next < end
        invariant
            start <= next,
            next < end || next == end || next == total,
            end <= total,
            next % AUDIO_PAGE_FRAMES == 0 || next == total,
            end % AUDIO_PAGE_FRAMES == 0 || end == total,
            plan@ + wanted_pages(next as int, end as int, before) == old(plan)@ + run,
            ready@ + planned_starts(wanted_pages(next as int, end as int, before)) == before
                + planned_starts(run),
            forall|page: u64| next <= page ==> (ready@.contains(page) == before.contains(page)),
        decreases end - next,
    {
        let ghost rest = wanted_pages(next as int, end as int, before);
        let ghost tail = wanted_pages(next + AUDIO_PAGE_FRAMES, end as int, before);
        let ghost plan_before = plan@;
        let ghost ready_before = ready@;
        if !is_ready(ready, next) {
            let request = PageRequest {
                start_frame: next,
                frames: minimum(end - next, AUDIO_PAGE_FRAMES),
            };
            plan.push(request);
            ready.push(next);
            assert(rest == seq![request] + tail);
            assert(plan@ + tail =~= plan_before + rest);
            assert(planned_starts(rest) =~= seq![next] + planned_starts(tail));
            assert(ready@ + planned_starts(tail) =~= ready_before + planned_starts(rest));
            assert forall|page: u64| next < page implies ready@.contains(page) == before.contains(
                page,
            ) by {
                if ready_before.contains(page) {
                    let i = choose|i: int|
                        0 <= i < ready_before.len() && ready_before[i] == page;
                    assert(ready@[i] == page);
                }
            }
        } else {
            assert(rest == tail);
        }
        let step: u64 = minimum(total - next, AUDIO_PAGE_FRAMES);
        next = next + step;
        assert(wanted_pages(next as int, end as int, before) =~= tail);
    }
    assert(wanted_pages(next as int, end as int, before) =~= Seq::empty());
    assert(planned_starts(Seq::<PageRequest>::empty()) =~= Seq::empty());
    assert(plan@ =~= old(plan)@ + run);
    assert(ready@ =~= before + planned_starts(run));
}

/// The pages to render, in order, before `window` is wholly resident, where `ready`
/// lists the first frames of the pages that are already rendered.
pub fn missing_pages(window: PageWindow, ready: &Vec<u64>) -> (plan: Vec<PageRequest>)
    requires
        window.aligned(),
    ensures
        plan@ == lacking_pages(window, ready@),
{
    let mut known: Vec<u64> = Vec::new();
    let mut index: usize = 0;
    while index < ready.len()
        invariant
            index <= ready.len(),
            known@ == ready@.take(index as int),
        decreases ready.len() - index,
    {
        known.push(ready[index]);
        assert(ready@.take(index + 1) =~= ready@.take(index as int).push(ready@[index as int]));
        index += 1;
    }
    assert(ready@.take(ready.len() as int) =~= ready@);
    let mut plan: Vec<PageRequest> = Vec::new();
    plan_run(window.start_frame, window.end_frame, window.total_frames, &mut known, &mut plan);
    plan_run(
        window.secondary_start_frame,
        window.secondary_end_frame,
        window.total_frames,
        &mut known,
        &mut plan,
    );
    assert(plan@ =~= lacking_pages(window, ready@));
    plan
}

/// Keeps the rendered pages that start inside `window`.
pub fn retain_pages(ready: &Vec<u64>, window: PageWindow) -> (kept: Vec<u64>)
    ensures
        kept@ == ready@.filter(|start: u64| window.holds(start as int)),
{
    let ghost inside = |start: u64| window.holds(start as int);
    let mut kept: Vec<u64> = Vec::new();
    let mut index: usize = 0;
    while index < ready.len()
        invariant
            index <= ready.len(),
            inside == (|start: u64| window.holds(start as int)),
            kept@ == ready@.take(index as int).filter(inside),
        decreases ready.len() - index,
    {
        let start: u64 = ready[index];
        assert(ready@.take(index + 1) =~= ready@.take(index as int).push(start));
        assert(ready@.take(index + 1).drop_last() =~= ready@.take(index as int));
        reveal(Seq::filter);
        if window.contains(start) {
            kept.push(start);
        }
        index += 1;
    }
    assert(ready@.take(ready.len() as int) =~= ready@);
    kept
}

/// The first frame of a frame's page.
pub open spec fn page_start(frame: int) -> int {
    frame - frame % AUDIO_PAGE_FRAMES as int
}

/// Whether a planned page holds a frame.
pub open spec fn covered(plan: Seq<PageRequest>, frame: int) -> bool {
    exists|i: int|
        0 <= i < plan.len() && (#[trigger] plan[i]).start_frame <= frame < plan[i].start_frame
            + plan[i].frames
}

proof fn lemma_wanted_inside(start: int, end: int, ready: Seq<u64>, i: int)
    requires
        0 <= start,
        end <= u64::MAX,
        0 <= i < wanted_pages(start, end, ready).len(),
    ensures
        start <= wanted_pages(start, end, ready)[i].start_frame < end,
    decreases greatest(end - start, 0),
{
    let next = start + AUDIO_PAGE_FRAMES;
    if start < end {
        if ready.contains(start as u64) {
            lemma_wanted_inside(next, end, ready, i);
        } else if i > 0 {
            lemma_wanted_inside(next, end, ready, i - 1);
        }
    }
}

proof fn lemma_wanted_covers(start: int, end: int, total: int, ready: Seq<u64>, frame: int)
    requires
        run_aligned(start, end, total),
        total <= u64::MAX,
        start <= frame < end,
    ensures
        ready.contains(page_start(frame) as u64) || covered(
            wanted_pages(start, end, ready),
            frame,
        ),
    decreases greatest(end - start, 0),
{
    let plan = wanted_pages(start, end, ready);
    let next = start + AUDIO_PAGE_FRAMES;
    let tail = wanted_pages(next, end, ready);
    if frame < next {
        assert(page_start(frame) == start);
        if !ready.contains(start as u64) {
            assert(plan[0].start_frame == start);
        }
    } else {
        lemma_wanted_covers(next, end, total, ready, frame);
        if !ready.contains(page_start(frame) as u64) {
            let i = choose|i: int|
                0 <= i < tail.len() && (#[trigger] tail[i]).start_frame <= frame
                    < tail[i].start_frame + tail[i].frames;
            if ready.contains(start as u64) {
                assert(plan[i] == tail[i]);
            } else {
                assert(plan[i + 1] == tail[i]);
            }
        }
    }
}

/// Once the missing pages are rendered, every frame of the window lies in a page:
/// one that was ready and starts on the frame's page, or a planned one.
pub proof fn missing_pages_cover_the_window(window: PageWindow, ready: Seq<u64>, frame: int)
    requires
        window.aligned(),
        window.holds(frame),
    ensures
        ready.contains(page_start(frame) as u64) || covered(lacking_pages(window, ready), frame),
{
    let total = window.total_frames as int;
    let first = wanted_pages(window.start_frame as int, window.end_frame as int, ready);
    let known = ready + planned_starts(first);
    let second = wanted_pages(
        window.secondary_start_frame as int,
        window.secondary_end_frame as int,
        known,
    );
    let plan = lacking_pages(window, ready);
    let page = page_start(frame) as u64;
    if window.start_frame <= frame < window.end_frame {
        lemma_wanted_covers(
            window.start_frame as int,
            window.end_frame as int,
            total,
            ready,
            frame,
        );
        if !ready.contains(page) {
            let i = choose|i: int|
                0 <= i < first.len() && (#[trigger] first[i]).start_frame <= frame
                    < first[i].start_frame + first[i].frames;
            assert(plan[i] == first[i]);
        }
    } else {
        lemma_wanted_covers(
            window.secondary_start_frame as int,
            window.secondary_end_frame as int,
            total,
            known,
            frame,
        );
        if known.contains(page) {
            let k = choose|k: int| 0 <= k < known.len() && known[k] == page;
            if k < ready.len() {
                assert(ready[k] == page);
            } else {
                lemma_wanted_inside(
                    window.start_frame as int,
                    window.end_frame as int,
                    ready,
                    k - ready.len(),
                );
                assert(planned_starts(first)[k - ready.len()] == page);
            }
        } else {
            let i = choose|i: int|
                0 <= i < second.len() && (#[trigger] second[i]).start_frame <= frame
                    < second[i].start_frame + second[i].frames;
            assert(plan[first.len() + i] == second[i]);
        }
    }
}

/// The window holds the frame of interest; one past the end counts as the last frame.
pub proof fn window_holds_focus(
    window: PageWindow,
    total: u64,
    channels: int,
    focus: int,
    secondary: Option<u64>,
)
    requires
        total > 0,
        channels > 0,
        0 <= focus,
        chosen_window(window, total as int, channels, focus, secondary),
    ensures
        window.holds(least(focus, total - 1)),
{
    lemma_budget(channels);
}

/// The window holds the second frame of interest as well.
///
/// A budget of a single page is the exception: its second run, which starts one
/// page ahead of the frame, then ends where the frame's page begins.
pub proof fn window_holds_secondary(
    window: PageWindow,
    total: u64,
    channels: int,
    focus: int,
    secondary: u64,
)
    requires
        total > 0,
        channels > 0,
        0 <= focus,
        chosen_window(window, total as int, channels, focus, Some(secondary)),
        maximum_pages(channels) >= 2 || page_of(secondary as int, total as int) == 0 || page_of(
            secondary as int,
            total as int,
        ) == page_of(focus, total as int),
    ensures
        window.holds(least(secondary as int, total - 1)),
{
    lemma_budget(channels);
}

/// The resident frames stay within the byte budget.
///
/// A budget of fewer than five pages is exceeded by the one page that the first
/// run always keeps when the second run has taken the whole budget.
pub proof fn window_fits_budget(
    window: PageWindow,
    total: u64,
    channels: int,
    focus: int,
    secondary: Option<u64>,
)
    requires
        channels > 0,
        0 <= focus,
        chosen_window(window, total as int, channels, focus, secondary),
        maximum_pages(channels) > SECONDARY_PAGES || reserved_pages(
            total as int,
            channels,
            focus,
            secondary,
        ) == 0,
    ensures
        window.resident_frames() <= maximum_pages(channels) * AUDIO_PAGE_FRAMES,
{
    lemma_budget(channels);
}

/// A window prepared for the lead of a moving playhead still holds the playhead,
/// as long as the first run keeps that lead behind its frame of interest.
pub proof fn lead_window_holds_playhead(
    window: PageWindow,
    total: u64,
    channels: int,
    playhead: int,
    secondary: Option<u64>,
)
    requires
        channels > 0,
        0 <= playhead < total,
        chosen_window(window, total as int, channels, playhead + lead_frames(), secondary),
        primary_pages(total as int, channels, playhead + lead_frames(), secondary) / 4
            >= AUDIO_PREPARE_LEAD_PAGES,
    ensures
        window.holds(playhead),
{
    lemma_budget(channels);
    assert(lead_frames() == 524288);
}

/// The budget is 32 MiB of pages of 65,536 frames of four bytes per channel: as many pages as go
/// into it, and one at least.
pub proof fn budgets_are_used_up(channels: int)
    requires
        channels > 0,
    ensures
        maximum_pages(channels) >= 1,
        maximum_pages(channels) > 1 ==> maximum_pages(channels) * (65_536 * 4 * channels) <= 32
            * 1_024 * 1_024,
        (maximum_pages(channels) + 1) * (65_536 * 4 * channels) > 32 * 1_024 * 1_024,
{
    lemma_budget(channels);
    let pages = 128int / channels;
    vstd::arithmetic::div_mod::lemma_fundamental_div_mod(128, channels);
    assert(0 <= 128int % channels < channels) by (nonlinear_arith)
        requires
            channels > 0,
    ;
    let most = maximum_pages(channels);
    assert((most + 1) * channels > 128) by (nonlinear_arith)
        requires
            128 < channels * pages + channels,
            most >= pages,
            channels > 0,
    ;
    if most > 1 {
        assert(most * channels <= 128) by (nonlinear_arith)
            requires
                most == pages,
                channels * pages <= 128,
        ;
    }
    assert(most * (65_536 * 4 * channels) == 262_144 * (most * channels)) by (nonlinear_arith);
    assert((most + 1) * (65_536 * 4 * channels) == 262_144 * ((most + 1) * channels))
        by (nonlinear_arith);
}

/// A plan asks only for what lacks: every page of it begins in the window, is not there yet, is
/// full unless it ends its run, and is asked for once.
pub proof fn plans_ask_for_what_lacks(start: int, end: int, ready: Seq<u64>)
    requires
        0 <= start,
        end <= u64::MAX,
    ensures
        forall|i: int|
            0 <= i < wanted_pages(start, end, ready).len() ==> {
                let page = #[trigger] wanted_pages(start, end, ready)[i];
                &&& start <= page.start_frame < end
                &&& (page.start_frame - start) % 65_536 == 0
                &&& !ready.contains(page.start_frame)
                &&& page.frames == 65_536 || page.start_frame + page.frames == end
                &&& 0 < page.frames <= 65_536
                &&& page.start_frame + page.frames <= end
            },
        forall|i: int, j: int|
            0 <= i < j < wanted_pages(start, end, ready).len() ==> (#[trigger] wanted_pages(
                start,
                end,
                ready,
            )[i]).start_frame < (#[trigger] wanted_pages(start, end, ready)[j]).start_frame,
    decreases greatest(end - start, 0),
{
    if start < end {
        let next = start + AUDIO_PAGE_FRAMES;
        let plan = wanted_pages(start, end, ready);
        let rest = wanted_pages(next, end, ready);
        plans_ask_for_what_lacks(next, end, ready);
        if ready.contains(start as u64) {
            assert(plan == rest);
            assert forall|i: int| 0 <= i < plan.len() implies (#[trigger] plan[i].start_frame
                - start) % 65_536 == 0 by {
                assert((rest[i].start_frame - next) % 65_536 == 0);
            }
        } else {
            assert forall|i: int| 0 <= i < plan.len() implies {
                let page = #[trigger] plan[i];
                &&& start <= page.start_frame < end
                &&& (page.start_frame - start) % 65_536 == 0
                &&& !ready.contains(page.start_frame)
                &&& page.frames == 65_536 || page.start_frame + page.frames == end
                &&& 0 < page.frames <= 65_536
                &&& page.start_frame + page.frames <= end
            } by {
                if i > 0 {
                    assert(plan[i] == rest[i - 1]);
                    assert((rest[i - 1].start_frame - next) % 65_536 == 0);
                }
            }
            assert forall|i: int, j: int| 0 <= i < j < plan.len() implies (
            #[trigger] plan[i]).start_frame < (#[trigger] plan[j]).start_frame by {
                assert(plan[j] == rest[j - 1]);
                if i > 0 {
                    assert(plan[i] == rest[i - 1]);
                }
            }
        }
    }
}

/// A window that serves one place uses the budget up, or holds everything up to an end of the
/// audio, and a quarter of its pages precede the page of that place unless an end of the audio is
/// in the way.
pub proof fn windows_reach_around_the_focus(
    window: PageWindow,
    total: u64,
    channels: int,
    focus: int,
)
    requires
        total > 0,
        channels > 0,
        0 <= focus < total,
        chosen_window(window, total as int, channels, focus, None),
    ensures
        ({
            let pages = maximum_pages(channels);
            &&& window.end_frame - window.start_frame == pages * 65_536 || window.end_frame == total
            &&& window.end_frame - window.start_frame <= pages * 65_536
            &&& total > pages * 65_536 ==> window.end_frame - window.start_frame > (pages - 1)
                * 65_536
            &&& window.start_frame == 0 || window.end_frame == total || focus - focus % 65_536
                - window.start_frame == (pages / 4) * 65_536
            &&& window.start_frame % 65_536 == 0
        }),
{
    lemma_budget(channels);
}

/// The least and the greatest of two are one of them, and no other is beyond.
pub proof fn least_and_greatest_are_the_ends(a: int, b: int)
    ensures
        least(a, b) <= a && least(a, b) <= b && (least(a, b) == a || least(a, b) == b),
        greatest(a, b) >= a && greatest(a, b) >= b && (greatest(a, b) == a || greatest(a, b) == b),
        lead_frames() == 524_288,
{
}

/// A window holds the frames of its two runs, and a page starts at the multiple of 65,536 at or
/// before its frames.
pub proof fn windows_hold_their_runs(window: PageWindow, frame: int)
    requires
        0 <= frame,
    ensures
        window.holds(frame) <==> (window.start_frame <= frame && frame < window.end_frame) || (
        window.secondary_start_frame <= frame && frame < window.secondary_end_frame),
        page_start(frame) % 65_536 == 0,
        page_start(frame) <= frame < page_start(frame) + 65_536,
{
}

/// A frame lies in its page, and one beyond the end in the last; audio without a frame has an
/// empty window.
pub proof fn frames_lie_in_their_page(
    frame: int,
    total: int,
    window: PageWindow,
    channels: int,
    secondary: Option<u64>,
)
    requires
        0 <= frame,
    ensures
        0 < total && frame < total ==> 65_536 * page_of(frame, total) <= frame < 65_536 * (page_of(
            frame,
            total,
        ) + 1),
        0 < total <= frame ==> 65_536 * page_of(frame, total) <= total - 1 < 65_536 * (page_of(
            frame,
            total,
        ) + 1),
        0 < total ==> 65_536 * (page_count(total) - 1) < total <= 65_536 * page_count(total),
        chosen_window(window, 0, channels, frame, secondary) ==> window.start_frame == 0
            && window.end_frame == 0 && window.secondary_start_frame == 0
            && window.secondary_end_frame == 0 && window.total_frames == 0,
{
}

} // verus!
