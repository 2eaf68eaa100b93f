//! Handing work to a thread that does one piece at a time, where only the newest piece
//! that waits matters; and the waveforms that such a thread makes.
use crate::pages::{greatest, least};
use crate::text::same_text;
use vstd::prelude::*;

verus! {

/// What waits for a thread.
#[derive(Debug)]
pub struct Mailbox<R> {
    pub pending: Option<R>,
    pub closed: bool,
}

/// What the thread does next.
#[derive(Debug)]
pub enum MailStep<R> {
    /// Wait until something changes.
    Wait,
    Work(R),
    Stop,
}

impl<R> Mailbox<R> {
    /// Nothing waits.
    pub fn new() -> (mailbox: Self)
        ensures
            mailbox.pending is None,
            !mailbox.closed,
    {
        Mailbox { pending: None, closed: false }
    }

    /// Puts in a piece of work; one that still waits is given back, and its owner hears
    /// nothing more of it.
    pub fn request(&mut self, request: R) -> (replaced: Option<R>)
        ensures
            final(self).pending == Some(request),
            final(self).closed == old(self).closed,
            replaced == old(self).pending,
    {
        let replaced = self.pending.take();
        self.pending = Some(request);
        replaced
    }

    /// Takes back what waits.
    pub fn cancel_pending(&mut self) -> (cancelled: Option<R>)
        ensures
            final(self).pending is None,
            final(self).closed == old(self).closed,
            cancelled == old(self).pending,
    {
        self.pending.take()
    }

    /// What the thread does next: once the mailbox is closed, nothing more.
    pub fn next_step(&mut self) -> (step: MailStep<R>)
        ensures
            final(self).closed == old(self).closed,
            old(self).closed ==> step is Stop && final(self).pending == old(self).pending,
            !old(self).closed ==> final(self).pending is None && match old(self).pending {
                Some(request) => step == MailStep::Work(request),
                None => step is Wait,
            },
    {
        if self.closed {
            return MailStep::Stop;
        }
        match self.pending.take() {
            Some(request) => MailStep::Work(request),
            None => MailStep::Wait,
        }
    }

    /// Closes the mailbox, and gives back what waits.
    pub fn close(&mut self) -> (cancelled: Option<R>)
        ensures
            final(self).pending is None,
            final(self).closed,
            cancelled == old(self).pending,
    {
        self.closed = true;
        self.pending.take()
    }

    /// What a thread does after a part of its work: it goes on, turns to newer work, or
    /// stops.
    pub fn after_part(&self) -> (progress: Progress)
        ensures
            progress == if self.closed {
                Progress::Stop
            } else if self.pending is Some {
                Progress::Restart
            } else {
                Progress::Continue
            },
    {
        if self.closed {
            Progress::Stop
        } else if self.pending.is_some() {
            Progress::Restart
        } else {
            Progress::Continue
        }
    }
}

/// What a thread does after a part of its work.
#[derive(Clone, Copy, Debug, PartialEq, Eq, Structural)]
pub enum Progress {
    Continue,
    Restart,
    Stop,
}

/// The least frames in a point of a waveform.
pub const WAVEFORM_BASE_BUCKET_FRAMES: u64 = 128;

/// The most points of a waveform.
pub const WAVEFORM_MAX_BUCKETS: u64 = 262_144;

/// Frames in a point of the waveform of a recording.
pub open spec fn bucket_of(frames: int) -> int {
    least(
        greatest(
            WAVEFORM_BASE_BUCKET_FRAMES as int,
            (frames + WAVEFORM_MAX_BUCKETS - 1) / (WAVEFORM_MAX_BUCKETS as int),
        ),
        u32::MAX as int,
    )
}

/// Frames in a point of the waveform of a recording: few, but not so few that there are
/// too many points.
pub fn bucket_frames(frames: u64) -> (bucket: u32)
    ensures
        bucket == bucket_of(frames as int),
{
    let whole: u64 = frames / WAVEFORM_MAX_BUCKETS;
    let needed: u64 = if frames % WAVEFORM_MAX_BUCKETS == 0 {
        whole
    } else {
        whole + 1
    };
    let wanted: u64 = if needed > WAVEFORM_BASE_BUCKET_FRAMES {
        needed
    } else {
        WAVEFORM_BASE_BUCKET_FRAMES
    };
    if wanted > u32::MAX as u64 {
        u32::MAX
    } else {
        wanted as u32
    }
}

/// The recordings whose waveforms are known, by what they hold.
#[derive(Debug)]
pub struct WaveformCache {
    pub hashes: Vec<String>,
}

/// The place of the first recording with this content, or the number of recordings.
pub open spec fn cached_place(hashes: Seq<String>, hash: Seq<char>) -> int
    decreases hashes.len(),
{
    if hashes.len() == 0 {
        0
    } else if hashes[0]@ == hash {
        0
    } else {
        1 + cached_place(hashes.skip(1), hash)
    }
}

impl WaveformCache {
    /// Nothing is known.
    pub fn new() -> (cache: Self)
        ensures
            cache.hashes@.len() == 0,
    {
        WaveformCache { hashes: Vec::new() }
    }

    /// The place of a waveform that is known.
    pub fn find(&self, hash: &str) -> (place: Option<usize>)
        ensures
            place == if cached_place(self.hashes@, hash@) < self.hashes@.len() {
                Some(cached_place(self.hashes@, hash@) as usize)
            } else {
                None
            },
    {
        let mut place: usize = 0;
        assert(self.hashes@.skip(0) =~= self.hashes@);
        while place < self.hashes.len()
            invariant
                place <= self.hashes.len(),
                cached_place(self.hashes@, hash@) == place + cached_place(
                    self.hashes@.skip(place as int),
                    hash@,
                ),
            decreases self.hashes.len() - place,
        {
            let ghost rest = self.hashes@.skip(place as int);
            if same_text(self.hashes[place].as_str(), hash) {
                return Some(place);
            }
            assert(rest.skip(1) =~= self.hashes@.skip(place + 1));
            place += 1;
        }
        None
    }

    /// A waveform was made; its place is the last.
    pub fn learn(&mut self, hash: &str)
        ensures
            final(self).hashes@.len() == old(self).hashes@.len() + 1,
            final(self).hashes@.last()@ == hash@,
            final(self).hashes@.drop_last() == old(self).hashes@,
    {
        self.hashes.push(String::from_str(hash));
        assert(self.hashes@.drop_last() =~= old(self).hashes@);
    }
}

/// A waveform has no more points than can be drawn, unless its points would hold more
/// frames than can be counted.
pub proof fn waveforms_stay_small(frames: u64)
    requires
        frames <= u32::MAX as u64 * WAVEFORM_MAX_BUCKETS,
    ensures
        frames <= bucket_of(frames as int) * WAVEFORM_MAX_BUCKETS,
{
}

/// A bucket of a waveform holds 128 frames, or as many as it takes to stay at 262,144 buckets and
/// no more.
pub proof fn buckets_are_as_small_as_they_can_be(frames: int)
    requires
        0 <= frames <= 262_144 * u32::MAX,
    ensures
        bucket_of(frames) >= 128,
        262_144 * bucket_of(frames) >= frames,
        bucket_of(frames) > 128 ==> 262_144 * (bucket_of(frames) - 1) < frames,
{
}

/// A waveform is found in the cache by its hash: the first that has it, if any has.
pub proof fn waveforms_are_found_by_their_hash(hashes: Seq<String>, hash: Seq<char>)
    ensures
        0 <= cached_place(hashes, hash) <= hashes.len(),
        cached_place(hashes, hash) < hashes.len() ==> hashes[cached_place(hashes, hash)]@ == hash,
        forall|i: int| 0 <= i < cached_place(hashes, hash) ==> (#[trigger] hashes[i])@ != hash,
    decreases hashes.len(),
{
    if hashes.len() > 0 && hashes[0]@ != hash {
        let rest = hashes.skip(1);
        waveforms_are_found_by_their_hash(rest, hash);
        assert forall|i: int| 0 <= i < cached_place(hashes, hash) implies (#[trigger] hashes[i])@
            != hash by {
            if i > 0 {
                assert(rest[i - 1] == hashes[i]);
            }
        }
    }
}

} // verus!
