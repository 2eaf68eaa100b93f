//! The mailbox between the shell and the thread that renders timelines.
//!
//! A new request replaces the one that waits, and a finished render is handed
//! over only while no different request waits.
use crate::pages::{
    chosen_window, greatest, lacking_pages, least, missing_pages, page_window, planned_starts,
    retain_pages, wanted_pages, PageRequest, PageWindow, AUDIO_PAGE_FRAMES,
};
use vstd::prelude::*;

verus! {

/// What a render is asked for: a project revision and the frames of interest.
#[derive(Clone, Copy, Debug, PartialEq, Eq, Structural)]
pub struct WindowRequest {
    pub revision: u64,
    pub focus_frame: u64,
    pub secondary_frame: Option<u64>,
}

/// Whether two requests ask for the same window.
pub fn same_request(a: WindowRequest, b: WindowRequest) -> (same: bool)
    ensures
        same == (a == b),
{
    let same_secondary = match (a.secondary_frame, b.secondary_frame) {
        (Some(left), Some(right)) => left == right,
        (None, None) => true,
        _ => false,
    };
    a.revision == b.revision && a.focus_frame == b.focus_frame && same_secondary
}

/// A request together with the project to render.
#[derive(Debug)]
pub struct CompileJob<P> {
    pub request: WindowRequest,
    pub project: P,
}

/// What came of a job.
#[derive(Debug)]
pub struct CompileResult<S> {
    pub request: WindowRequest,
    pub window: PageWindow,
    pub result: Result<S, String>,
}

/// What the rendering thread does next.
#[derive(Debug)]
pub enum CompileStep<P> {
    Wait,
    Stop,
    Run(CompileJob<P>),
}

/// The mailbox.
#[derive(Debug)]
pub struct CompileState<P, S> {
    pub pending: Option<CompileJob<P>>,
    pub completed: Option<CompileResult<S>>,
    pub closed: bool,
}

/// Whether the waiting job asks for something other than `active`.
pub open spec fn supersedes<P>(pending: Option<CompileJob<P>>, active: WindowRequest) -> bool {
    pending is Some && pending->0.request != active
}

/// Whether the job that waits makes the work on `active` useless.
pub fn request_supersedes<P>(pending: &Option<CompileJob<P>>, active: WindowRequest) -> (newer: bool)
    ensures
        newer == supersedes(*pending, active),
{
    match pending {
        Some(job) => !same_request(job.request, active),
        None => false,
    }
}

/// Pages that are given by their first frames, in ascending order.
pub open spec fn ascending(pages: Seq<u64>) -> bool {
    forall|i: int, j: int| 0 <= i < j < pages.len() ==> pages[i] < pages[j]
}

/// A project that was compiled, and the pages of it that are rendered.
#[derive(Debug)]
pub struct PreparedProject {
    pub revision: u64,
    /// The first frames of the pages.
    pub pages: Vec<u64>,
}

/// Whether a project has to be compiled for a revision: unless it was already.
pub fn needs_compile(prepared: &Option<PreparedProject>, revision: u64) -> (needed: bool)
    ensures
        needed == !(prepared matches Some(project) && project.revision == revision),
{
    match prepared {
        Some(project) => project.revision != revision,
        None => true,
    }
}

impl PreparedProject {
    /// The pages are kept in order.
    pub open spec fn well_formed(self) -> bool {
        ascending(self.pages@)
    }

    /// A project that was just compiled.
    pub fn new(revision: u64) -> (project: Self)
        ensures
            project.revision == revision,
            project.pages@ == Seq::<u64>::empty(),
            project.well_formed(),
    {
        PreparedProject { revision, pages: Vec::new() }
    }

    /// Gives up the pages outside the window of a request, and plans those that it lacks.
    pub fn prepare_snapshot_window(
        &mut self,
        request: WindowRequest,
        length: u64,
        tail: u64,
        channels: usize,
    ) -> (plan: (PageWindow, Vec<PageRequest>))
        requires
            old(self).well_formed(),
            channels > 0 || length + tail == 0,
        ensures
            chosen_window(
                plan.0,
                least(length + tail, u64::MAX as int),
                channels as int,
                request.focus_frame as int,
                request.secondary_frame,
            ),
            plan.0.aligned(),
            final(self).revision == old(self).revision,
            final(self).pages@ == old(self).pages@.filter(
                |start: u64| plan.0.holds(start as int),
            ),
            plan.1@ == lacking_pages(plan.0, final(self).pages@),
            final(self).well_formed(),
    {
        let total: u64 = length.saturating_add(tail);
        let window = page_window(total, channels, request.focus_frame, request.secondary_frame);
        let kept = retain_pages(&self.pages, window);
        proof {
            lemma_kept_in_order(self.pages@, |start: u64| window.holds(start as int));
        }
        self.pages = kept;
        let missing = missing_pages(window, &self.pages);
        (window, missing)
    }

    /// A page was rendered.
    pub fn page_rendered(&mut self, start: u64)
        requires
            old(self).well_formed(),
        ensures
            final(self).revision == old(self).revision,
            forall|page: u64|
                final(self).pages@.contains(page) <==> old(self).pages@.contains(page) || page
                    == start,
            final(self).well_formed(),
    {
        let mut place: usize = 0;
        while place < self.pages.len() && self.pages[place] < start
            invariant
                place <= self.pages.len(),
                self.pages == old(self).pages,
                forall|i: int| 0 <= i < place ==> self.pages@[i] < start,
            decreases self.pages.len() - place,
        {
            place += 1;
        }
        let ghost before = self.pages@;
        if place < self.pages.len() && self.pages[place] == start {
            assert(before[place as int] == start);
            return;
        }
        self.pages.insert(place, start);
        assert forall|page: u64|
            #[trigger] self.pages@.contains(page) <==> before.contains(page) || page == start by {
            if before.contains(page) {
                let i = choose|i: int| 0 <= i < before.len() && before[i] == page;
                if i < place {
                    assert(self.pages@[i] == page);
                } else {
                    assert(self.pages@[i + 1] == page);
                }
            }
            if page == start {
                assert(self.pages@[place as int] == page);
            }
            if self.pages@.contains(page) && page != start {
                let i = choose|i: int| 0 <= i < self.pages@.len() && self.pages@[i] == page;
                if i < place {
                    assert(before[i] == page);
                } else {
                    assert(before[i - 1] == page);
                }
            }
        }
        assert forall|i: int, j: int| 0 <= i < j < self.pages@.len() implies self.pages@[i]
            < self.pages@[j] by {
            if i >= place && i > 0 && j > place {
                assert(before[j - 1] == self.pages@[j]);
            }
        }
    }
}

proof fn lemma_kept_in_order(pages: Seq<u64>, keep: spec_fn(u64) -> bool)
    requires
        ascending(pages),
    ensures
        ascending(pages.filter(keep)),
        forall|i: int| 0 <= i < pages.filter(keep).len() ==> pages.contains(
            #[trigger] pages.filter(keep)[i],
        ),
    decreases pages.len(),
{
    reveal(Seq::filter);
    if pages.len() > 0 {
        let rest = pages.drop_last();
        lemma_kept_in_order(rest, keep);
        let kept = pages.filter(keep);
        assert forall|i: int| 0 <= i < kept.len() implies pages.contains(#[trigger] kept[i]) by {
            if i < rest.filter(keep).len() {
                let k = choose|k: int| 0 <= k < rest.len() && rest[k] == rest.filter(keep)[i];
                assert(pages[k] == kept[i]);
            } else {
                assert(pages[pages.len() - 1] == kept[i]);
            }
        }
        assert forall|i: int, j: int| 0 <= i < j < kept.len() implies kept[i] < kept[j] by {
            let k = choose|k: int| 0 <= k < rest.len() && rest[k] == rest.filter(keep)[i];
            if j == rest.filter(keep).len() {
                assert(pages[k] < pages[pages.len() - 1]);
            }
        }
    }
}

proof fn lemma_nothing_wanted(start: int, end: int, ready: Seq<u64>, later: Seq<u64>)
    requires
        0 <= start,
        end <= u64::MAX,
        forall|page: u64|
            ready.contains(page) || planned_starts(wanted_pages(start, end, ready)).contains(page)
                ==> later.contains(page),
    ensures
        wanted_pages(start, end, later).len() == 0,
    decreases greatest(end - start, 0),
{
    if start < end {
        let next = start + AUDIO_PAGE_FRAMES;
        let plan = wanted_pages(start, end, ready);
        let rest = wanted_pages(next, end, ready);
        assert forall|page: u64|
            ready.contains(page) || planned_starts(rest).contains(page) implies later.contains(
            page,
        ) by {
            if planned_starts(rest).contains(page) {
                let k = choose|k: int|
                    0 <= k < rest.len() && planned_starts(rest)[k] == page;
                if ready.contains(start as u64) {
                    assert(planned_starts(plan)[k] == page);
                } else {
                    assert(plan[k + 1] == rest[k]);
                    assert(planned_starts(plan)[k + 1] == page);
                }
            }
        }
        lemma_nothing_wanted(next, end, ready, later);
        if !ready.contains(start as u64) {
            assert(plan[0].start_frame == start);
            assert(planned_starts(plan)[0] == start as u64);
        }
        assert(later.contains(start as u64));
    }
}

/// Once the pages that a window lacks are rendered, it lacks none.
pub proof fn rendered_windows_lack_nothing(window: PageWindow, ready: Seq<u64>, later: Seq<u64>)
    requires
        forall|page: u64|
            ready.contains(page) || planned_starts(lacking_pages(window, ready)).contains(page)
                ==> later.contains(page),
    ensures
        lacking_pages(window, later) == Seq::<PageRequest>::empty(),
{
    let first = wanted_pages(window.start_frame as int, window.end_frame as int, ready);
    let known = ready + planned_starts(first);
    let second = wanted_pages(
        window.secondary_start_frame as int,
        window.secondary_end_frame as int,
        known,
    );
    let plan = lacking_pages(window, ready);
    assert forall|page: u64|
        ready.contains(page) || planned_starts(first).contains(page) implies later.contains(
        page,
    ) by {
        if planned_starts(first).contains(page) {
            let k = choose|k: int| 0 <= k < first.len() && planned_starts(first)[k] == page;
            assert(plan[k] == first[k]);
            assert(planned_starts(plan)[k] == page);
        }
    }
    lemma_nothing_wanted(window.start_frame as int, window.end_frame as int, ready, later);
    assert forall|page: u64|
        known.contains(page) || planned_starts(second).contains(page) implies later.contains(
        page,
    ) by {
        if planned_starts(second).contains(page) {
            let k = choose|k: int| 0 <= k < second.len() && planned_starts(second)[k] == page;
            assert(plan[first.len() + k] == second[k]);
            assert(planned_starts(plan)[first.len() + k] == page);
        }
        if known.contains(page) {
            let k = choose|k: int| 0 <= k < known.len() && known[k] == page;
            if k < ready.len() {
                assert(ready[k] == page);
            } else {
                assert(planned_starts(first)[k - ready.len()] == page);
            }
        }
    }
    lemma_nothing_wanted(
        window.secondary_start_frame as int,
        window.secondary_end_frame as int,
        known,
        later,
    );
    let again = wanted_pages(window.start_frame as int, window.end_frame as int, later);
    assert(later + planned_starts(again) =~= later);
    assert(lacking_pages(window, later) =~= Seq::<PageRequest>::empty());
}

impl<P, S> CompileState<P, S> {
    /// A finished render never waits beside a different request.
    pub open spec fn consistent(self) -> bool {
        self.completed is Some ==> !supersedes(self.pending, self.completed->0.request)
    }

    /// An empty mailbox.
    pub fn new() -> (state: Self)
        ensures
            state.pending is None,
            state.completed is None,
            !state.closed,
            state.consistent(),
    {
        CompileState { pending: None, completed: None, closed: false }
    }

    /// Asks for a render. The newest request is the one that waits, and a finished
    /// render of anything else is dropped.
    pub fn request(&mut self, job: CompileJob<P>)
        ensures
            final(self).pending == Some(job),
            final(self).completed == (if old(self).completed is Some
                && old(self).completed->0.request == job.request {
                old(self).completed
            } else {
                None
            }),
            final(self).closed == old(self).closed,
            final(self).consistent(),
    {
        let keep = match &self.completed {
            Some(completed) => same_request(completed.request, job.request),
            None => true,
        };
        if !keep {
            self.completed = None;
        }
        self.pending = Some(job);
    }

    /// Hands the finished render over, once.
    pub fn take_completed(&mut self) -> (completed: Option<CompileResult<S>>)
        ensures
            completed == old(self).completed,
            final(self).completed is None,
            final(self).pending == old(self).pending,
            final(self).closed == old(self).closed,
            final(self).consistent(),
    {
        self.completed.take()
    }

    /// Tells the rendering thread to stop.
    pub fn close(&mut self)
        ensures
            final(self).closed,
            final(self).pending == old(self).pending,
            final(self).completed == old(self).completed,
    {
        self.closed = true;
    }

    /// Takes the waiting job, unless the mailbox is closed.
    pub fn next_step(&mut self) -> (step: CompileStep<P>)
        ensures
            step == (if old(self).closed {
                CompileStep::Stop
            } else {
                match old(self).pending {
                    Some(job) => CompileStep::Run(job),
                    None => CompileStep::Wait,
                }
            }),
            final(self).pending == (if old(self).closed {
                old(self).pending
            } else {
                None
            }),
            final(self).completed == old(self).completed,
            final(self).closed == old(self).closed,
            old(self).consistent() ==> final(self).consistent(),
    {
        if self.closed {
            return CompileStep::Stop;
        }
        match self.pending.take() {
            Some(job) => CompileStep::Run(job),
            None => CompileStep::Wait,
        }
    }

    /// Whether work on `active` should be abandoned.
    pub fn compile_request_is_superseded(&self, active: WindowRequest) -> (abandon: bool)
        ensures
            abandon == (self.closed || supersedes(self.pending, active)),
    {
        self.closed || request_supersedes(&self.pending, active)
    }

    /// Publishes what came of a job, unless a different request has arrived since.
    pub fn publish(&mut self, completed: CompileResult<S>)
        requires
            old(self).consistent(),
        ensures
            final(self).completed == (if supersedes(old(self).pending, completed.request) {
                old(self).completed
            } else {
                Some(completed)
            }),
            final(self).pending == old(self).pending,
            final(self).closed == old(self).closed,
            final(self).consistent(),
    {
        if !request_supersedes(&self.pending, completed.request) {
            self.completed = Some(completed);
        }
    }
}

/// A render is abandoned for another that waits, and not for the same one.
pub proof fn renders_give_way_to_others<P>(job: CompileJob<P>, active: WindowRequest)
    ensures
        !supersedes(None::<CompileJob<P>>, active),
        supersedes(Some(job), active) <==> job.request.revision != active.revision
            || job.request.focus_frame != active.focus_frame || job.request.secondary_frame
            != active.secondary_frame,
{
}

/// Pages in order stay in order with one behind them exactly if it starts later than the last.
pub proof fn pages_in_order_end_with_the_latest(pages: Seq<u64>, page: u64)
    requires
        ascending(pages),
        pages.len() > 0,
    ensures
        ascending(pages.push(page)) <==> pages.last() < page,
        ascending(seq![page]),
{
    let more = pages.push(page);
    assert(more[pages.len() as int] == page && more[pages.len() - 1] == pages.last());
    if pages.last() < page {
        assert forall|i: int, j: int| 0 <= i < j < more.len() implies more[i] < more[j] by {
            if j < pages.len() {
                assert(pages[i] < pages[j]);
            } else if i < pages.len() - 1 {
                assert(pages[i] < pages[pages.len() - 1]);
            }
        }
    }
}

} // verus!
