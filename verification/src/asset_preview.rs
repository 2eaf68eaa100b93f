//! Listening to a single audio file.
//!
//! While a file is previewed it has the audio callback to itself. Times are counted in
//! nanoseconds.
use crate::pages::least;
use crate::queue::{Metronome, RealtimeCommand, Snapshot};
use vstd::prelude::*;

verus! {

/// Nanoseconds in a second.
pub const NANOS: u64 = 1_000_000_000;

/// Frames by which the callback may miss the target of a seek.
pub const PREVIEW_SEEK_TOLERANCE: u64 = 8_192;

/// The frame nearest to a time, and no later than the end.
pub open spec fn nearest_frame(nanos: int, sample_rate: int, total: int) -> int {
    if nanos <= 0 || sample_rate == 0 {
        0
    } else if nanos * sample_rate >= total * NANOS {
        total
    } else {
        (2 * (nanos * sample_rate) + NANOS) / (2 * NANOS as int)
    }
}

/// The time of a frame, rounded down, as far as it can be counted.
pub open spec fn frame_time(frame: int, sample_rate: int) -> int {
    if sample_rate == 0 {
        0
    } else {
        least(frame * NANOS / sample_rate, u64::MAX as int)
    }
}

/// The frame nearest to a time, and no later than the end.
pub fn time_to_frame(nanos: u64, sample_rate: u32, total: u64) -> (frame: u64)
    ensures
        frame == nearest_frame(nanos as int, sample_rate as int, total as int),
        frame <= total,
{
    if nanos == 0 || sample_rate == 0 {
        return 0;
    }
    assert(0 <= nanos * sample_rate <= 0xffff_ffff_ffff_ffff * 0xffff_ffff) by (nonlinear_arith)
        requires
            0 <= nanos <= 0xffff_ffff_ffff_ffff,
            0 <= sample_rate <= 0xffff_ffff,
    ;
    let product: u128 = nanos as u128 * sample_rate as u128;
    let limit: u128 = total as u128 * 1_000_000_000;
    if product >= limit {
        total
    } else {
        let doubled: u128 = 2 * product + 1_000_000_000;
        let frame: u128 = doubled / 2_000_000_000;
        frame as u64
    }
}

/// The time of a frame.
pub fn frame_to_time(frame: u64, sample_rate: u32) -> (nanos: u64)
    ensures
        nanos == frame_time(frame as int, sample_rate as int),
{
    if sample_rate == 0 {
        return 0;
    }
    let product: u128 = frame as u128 * 1_000_000_000;
    let nanos: u128 = product / sample_rate as u128;
    proof {
        vstd::arithmetic::div_mod::lemma_div_pos_is_pos(product as int, sample_rate as int);
    }
    if nanos >= 0xffff_ffff_ffff_ffff {
        u64::MAX
    } else {
        nanos as u64
    }
}

/// What became of the file that is being decoded.
#[derive(Debug)]
pub enum Arrival {
    Nothing,
    Disconnected,
    Decoded(Result<Snapshot, String>),
}

/// A preview.
#[derive(Debug)]
pub struct AssetPreview {
    /// The file is still being decoded.
    pub loading: bool,
    pub snapshot: Option<Snapshot>,
    pub playing: bool,
    pub position: u64,
    pub duration: u64,
    /// Where playback pauses, if not at the end.
    pub range_end: Option<u64>,
    /// The frame that the callback was told to seek.
    pub telemetry_seek: Option<u64>,
    pub error: Option<String>,
}

/// A preview as a mathematical value.
#[verifier::ext_equal]
pub struct PreviewModel {
    pub loading: bool,
    pub snapshot: Option<Snapshot>,
    pub playing: bool,
    pub position: u64,
    pub duration: u64,
    pub range_end: Option<u64>,
    pub telemetry_seek: Option<u64>,
    pub error: Option<Seq<char>>,
}

/// What the user sees of a preview.
#[derive(Debug)]
pub struct AssetPreviewStatus {
    pub loading: bool,
    pub playing: bool,
    pub position: u64,
    pub duration: u64,
    pub error: Option<String>,
}

/// The characters of an optional text.
pub open spec fn text_view(text: Option<String>) -> Option<Seq<char>> {
    match text {
        Some(text) => Some(text@),
        None => None,
    }
}

/// The commands that an optional one stands for.
pub open spec fn queued(command: Option<RealtimeCommand>) -> Seq<RealtimeCommand> {
    match command {
        Some(command) => seq![command],
        None => Seq::empty(),
    }
}

/// The commands that start a preview in silence.
pub open spec fn silence_commands() -> Seq<RealtimeCommand> {
    seq![RealtimeCommand::Pause, RealtimeCommand::ClearSnapshot]
}

/// The commands that put a decoded file under the callback.
pub open spec fn install_commands(
    snapshot: Snapshot,
    frame: u64,
    playing: bool,
    quiet: Metronome,
) -> Seq<RealtimeCommand> {
    let install = seq![
        RealtimeCommand::InstallSnapshot(snapshot),
        RealtimeCommand::SetLoop(None),
        RealtimeCommand::SetMetronome(quiet),
        RealtimeCommand::Seek(frame),
    ];
    if playing {
        install.push(RealtimeCommand::Play)
    } else {
        install
    }
}

fn push_install_commands(
    commands: &mut Vec<RealtimeCommand>,
    snapshot: Snapshot,
    frame: u64,
    playing: bool,
    quiet: Metronome,
)
    ensures
        final(commands)@ == old(commands)@ + install_commands(snapshot, frame, playing, quiet),
{
    commands.push(RealtimeCommand::InstallSnapshot(snapshot));
    commands.push(RealtimeCommand::SetLoop(None));
    commands.push(RealtimeCommand::SetMetronome(quiet));
    commands.push(RealtimeCommand::Seek(frame));
    if playing {
        commands.push(RealtimeCommand::Play);
    }
    assert(commands@ =~= old(commands)@ + install_commands(snapshot, frame, playing, quiet));
}

/// The commands that start a preview in silence.
pub fn quiet_commands() -> (commands: Vec<RealtimeCommand>)
    ensures
        commands@ == silence_commands(),
{
    let mut commands: Vec<RealtimeCommand> = Vec::new();
    commands.push(RealtimeCommand::Pause);
    commands.push(RealtimeCommand::ClearSnapshot);
    assert(commands@ =~= silence_commands());
    commands
}

impl PreviewModel {
    /// The preview after it was told to play or to pause, and the commands for the callback.
    pub open spec fn toggled(self) -> (Self, Seq<RealtimeCommand>) {
        if self.error is Some {
            (self, Seq::empty())
        } else {
            (
                PreviewModel { playing: !self.playing, range_end: None, ..self },
                if self.snapshot is None {
                    Seq::empty()
                } else if self.playing {
                    seq![RealtimeCommand::Pause]
                } else {
                    seq![RealtimeCommand::Play]
                },
            )
        }
    }

    /// The preview after it was told to stop, and the commands for the callback.
    pub open spec fn stopped(self) -> (Self, Seq<RealtimeCommand>) {
        (
            PreviewModel {
                playing: false,
                position: 0,
                range_end: None,
                telemetry_seek: Some(0),
                ..self
            },
            if self.snapshot is Some {
                seq![RealtimeCommand::Stop]
            } else {
                Seq::empty()
            },
        )
    }

    /// The preview after it went to a time, and the commands for the callback.
    pub open spec fn sought(self, nanos: u64) -> (Self, Seq<RealtimeCommand>) {
        let placed = PreviewModel { position: self.clamped(nanos), range_end: None, ..self };
        if self.snapshot is Some {
            (
                PreviewModel { telemetry_seek: Some(placed.frame()), ..placed },
                seq![RealtimeCommand::Seek(placed.frame())],
            )
        } else {
            (placed, Seq::empty())
        }
    }

    /// The preview after it was told to play a range, and the commands for the callback.
    pub open spec fn ranged(self, start: u64, end: u64) -> (Self, Seq<RealtimeCommand>) {
        let from = self.clamped(start);
        let until = self.clamped(end);
        let placed = PreviewModel {
            position: from,
            range_end: Some(until),
            playing: true,
            ..self
        };
        if until <= from || self.error is Some {
            (self, Seq::empty())
        } else if self.snapshot is Some {
            (
                PreviewModel { telemetry_seek: Some(placed.frame()), ..placed },
                seq![RealtimeCommand::Seek(placed.frame()), RealtimeCommand::Play],
            )
        } else {
            (placed, Seq::empty())
        }
    }

    /// A time inside the file, once its length is known.
    pub open spec fn clamped(self, nanos: u64) -> u64 {
        if self.duration > 0 {
            least(nanos as int, self.duration as int) as u64
        } else {
            nanos
        }
    }

    /// The frame of the decoded file at the present position.
    pub open spec fn frame(self) -> u64 {
        nearest_frame(
            self.position as int,
            self.snapshot->0.sample_rate as int,
            self.snapshot->0.total_frames as int,
        ) as u64
    }

    /// The preview after its file was decoded.
    pub open spec fn with_snapshot(self, snapshot: Snapshot) -> Self {
        let known = PreviewModel {
            loading: false,
            duration: frame_time(
                snapshot.total_frames as int,
                snapshot.sample_rate as int,
            ) as u64,
            snapshot: Some(snapshot),
            ..self
        };
        let placed = PreviewModel { position: known.clamped(self.position), ..known };
        PreviewModel { telemetry_seek: Some(placed.frame()), ..placed }
    }

    /// The preview after its file could not be decoded.
    pub open spec fn with_error(self, message: Seq<char>) -> Self {
        PreviewModel { loading: false, playing: false, error: Some(message), ..self }
    }

    /// The preview after news of its file.
    pub open spec fn after_arrival(self, arrival: Arrival) -> Self {
        if !self.loading {
            self
        } else {
            match arrival {
                Arrival::Nothing => self,
                Arrival::Disconnected => self.with_error("asset preview stopped unexpectedly"@),
                Arrival::Decoded(Ok(snapshot)) => self.with_snapshot(snapshot),
                Arrival::Decoded(Err(message)) => self.with_error(message@),
            }
        }
    }

    /// The commands that follow news of the file.
    pub open spec fn arrival_commands(
        self,
        arrival: Arrival,
        quiet: Metronome,
    ) -> Seq<RealtimeCommand> {
        if self.loading && arrival is Decoded && arrival->Decoded_0 is Ok {
            let snapshot = arrival->Decoded_0->Ok_0;
            install_commands(
                snapshot,
                self.with_snapshot(snapshot).frame(),
                self.playing,
                quiet,
            )
        } else {
            Seq::empty()
        }
    }

    /// The preview after it compared itself with the callback at `observed`.
    pub open spec fn located(self, observed: u64) -> Self {
        let snapshot = self.snapshot->0;
        let frame = least(observed as int, snapshot.total_frames as int);
        match self.telemetry_seek {
            Some(target) => PreviewModel {
                telemetry_seek: if target - PREVIEW_SEEK_TOLERANCE <= frame <= target
                    + PREVIEW_SEEK_TOLERANCE {
                    None
                } else {
                    Some(target)
                },
                ..self
            },
            None => PreviewModel {
                position: frame_time(frame, snapshot.sample_rate as int) as u64,
                ..self
            },
        }
    }

    /// Whether playback has come to its end: that of the range, or that of the file.
    pub open spec fn finished(self, observed: u64) -> bool {
        &&& self.playing
        &&& (self.range_end is Some && self.position >= self.range_end->0) || observed
            >= self.snapshot->0.total_frames
    }

    /// The preview after a look at the callback.
    pub open spec fn after_look(self, observed: Option<u64>) -> Self {
        if self.snapshot is Some && observed is Some {
            let placed = self.located(observed->0);
            if placed.finished(observed->0) {
                PreviewModel { playing: false, range_end: None, ..placed }
            } else {
                placed
            }
        } else {
            self
        }
    }

    /// Whether a look at the callback ends playback.
    pub open spec fn ends(self, observed: Option<u64>) -> bool {
        self.snapshot is Some && observed is Some && self.located(observed->0).finished(
            observed->0,
        )
    }
}

impl View for AssetPreview {
    type V = PreviewModel;

    open spec fn view(&self) -> PreviewModel {
        PreviewModel {
            loading: self.loading,
            snapshot: self.snapshot,
            playing: self.playing,
            position: self.position,
            duration: self.duration,
            range_end: self.range_end,
            telemetry_seek: self.telemetry_seek,
            error: text_view(self.error),
        }
    }
}

impl AssetPreview {
    /// A preview whose decoding was started, or could not be started.
    pub fn new(started: Result<(), String>) -> (preview: Self)
        ensures
            preview@ == (PreviewModel {
                loading: started is Ok,
                snapshot: None,
                playing: false,
                position: 0,
                duration: 0,
                range_end: None,
                telemetry_seek: None,
                error: match started {
                    Ok(_) => None,
                    Err(message) => Some(message@),
                },
            }),
    {
        let (loading, error) = match started {
            Ok(_) => (true, None),
            Err(message) => (false, Some(message)),
        };
        AssetPreview {
            loading,
            snapshot: None,
            playing: false,
            position: 0,
            duration: 0,
            range_end: None,
            telemetry_seek: None,
            error,
        }
    }

    /// A time inside the file, once its length is known.
    pub fn clamp_time(&self, nanos: u64) -> (clamped: u64)
        ensures
            clamped == self@.clamped(nanos),
    {
        if self.duration > 0 && nanos > self.duration {
            self.duration
        } else {
            nanos
        }
    }

    fn frame(&self, snapshot: Snapshot) -> (frame: u64)
        requires
            self.snapshot == Some(snapshot),
        ensures
            frame == self@.frame(),
    {
        time_to_frame(self.position, snapshot.sample_rate, snapshot.total_frames)
    }

    /// Plays, or pauses. A preview in error does neither.
    pub fn toggle(&mut self) -> (command: Option<RealtimeCommand>)
        ensures
            final(self)@ == old(self)@.toggled().0,
            queued(command) == old(self)@.toggled().1,
    {
        if self.error.is_some() {
            return None;
        }
        self.playing = !self.playing;
        self.range_end = None;
        if self.snapshot.is_none() {
            None
        } else if self.playing {
            Some(RealtimeCommand::Play)
        } else {
            Some(RealtimeCommand::Pause)
        }
    }

    /// Stops at the start.
    pub fn stop(&mut self) -> (command: Option<RealtimeCommand>)
        ensures
            final(self)@ == old(self)@.stopped().0,
            queued(command) == old(self)@.stopped().1,
    {
        self.playing = false;
        self.position = 0;
        self.range_end = None;
        self.telemetry_seek = Some(0);
        if self.snapshot.is_some() {
            Some(RealtimeCommand::Stop)
        } else {
            None
        }
    }

    /// Goes to a time. A range that was being played is forgotten.
    pub fn seek(&mut self, nanos: u64) -> (command: Option<RealtimeCommand>)
        ensures
            final(self)@ == old(self)@.sought(nanos).0,
            queued(command) == old(self)@.sought(nanos).1,
    {
        let position: u64 = self.clamp_time(nanos);
        self.position = position;
        self.range_end = None;
        match self.snapshot {
            Some(snapshot) => {
                let frame: u64 = self.frame(snapshot);
                self.telemetry_seek = Some(frame);
                Some(RealtimeCommand::Seek(frame))
            },
            None => None,
        }
    }

    /// Plays a range. A range that is empty inside the file is not played, and neither is
    /// one of a preview in error.
    pub fn play_range(&mut self, start: u64, end: u64) -> (commands: Vec<RealtimeCommand>)
        ensures
            final(self)@ == old(self)@.ranged(start, end).0,
            commands@ == old(self)@.ranged(start, end).1,
    {
        let mut commands: Vec<RealtimeCommand> = Vec::new();
        let from: u64 = self.clamp_time(start);
        let until: u64 = self.clamp_time(end);
        if until <= from || self.error.is_some() {
            return commands;
        }
        self.position = from;
        self.range_end = Some(until);
        self.playing = true;
        if let Some(snapshot) = self.snapshot {
            let frame: u64 = self.frame(snapshot);
            self.telemetry_seek = Some(frame);
            commands.push(RealtimeCommand::Seek(frame));
            commands.push(RealtimeCommand::Play);
        }
        commands
    }

    /// What the user sees.
    pub fn status(&self) -> (status: AssetPreviewStatus)
        ensures
            status.loading == self@.loading,
            status.playing == self@.playing,
            status.position == self@.position,
            status.duration == self@.duration,
            text_view(status.error) == self@.error,
    {
        let error = match &self.error {
            Some(message) => Some(message.clone()),
            None => None,
        };
        AssetPreviewStatus {
            loading: self.loading,
            playing: self.playing,
            position: self.position,
            duration: self.duration,
            error,
        }
    }

    /// The commands that put the preview back under a new callback.
    pub fn restore(&mut self, quiet: Metronome) -> (commands: Vec<RealtimeCommand>)
        ensures
            match old(self)@.snapshot {
                Some(snapshot) => {
                    &&& final(self)@ == (PreviewModel {
                        telemetry_seek: Some(old(self)@.frame()),
                        ..old(self)@
                    })
                    &&& commands@ == install_commands(
                        snapshot,
                        old(self)@.frame(),
                        old(self)@.playing,
                        quiet,
                    )
                },
                None => final(self)@ == old(self)@ && commands@ == silence_commands(),
            },
    {
        match self.snapshot {
            Some(snapshot) => {
                let mut commands: Vec<RealtimeCommand> = Vec::new();
                let frame: u64 = self.frame(snapshot);
                self.telemetry_seek = Some(frame);
                push_install_commands(&mut commands, snapshot, frame, self.playing, quiet);
                assert(commands@ =~= install_commands(snapshot, frame, self.playing, quiet));
                commands
            },
            None => quiet_commands(),
        }
    }

    fn arrive(&mut self, arrival: Arrival, quiet: Metronome, commands: &mut Vec<RealtimeCommand>)
        ensures
            final(self)@ == old(self)@.after_arrival(arrival),
            final(commands)@ == old(commands)@ + old(self)@.arrival_commands(arrival, quiet),
    {
        assert(commands@ + Seq::<RealtimeCommand>::empty() =~= commands@);
        if !self.loading {
            return;
        }
        match arrival {
            Arrival::Nothing => {},
            Arrival::Disconnected => {
                self.loading = false;
                self.playing = false;
                self.error = Some(String::from_str("asset preview stopped unexpectedly"));
            },
            Arrival::Decoded(Ok(snapshot)) => {
                self.loading = false;
                self.duration = frame_to_time(snapshot.total_frames, snapshot.sample_rate);
                self.snapshot = Some(snapshot);
                self.position = self.clamp_time(self.position);
                let frame: u64 = self.frame(snapshot);
                self.telemetry_seek = Some(frame);
                push_install_commands(commands, snapshot, frame, self.playing, quiet);
            },
            Arrival::Decoded(Err(message)) => {
                self.loading = false;
                self.playing = false;
                self.error = Some(message);
            },
        }
    }

    fn look(&mut self, observed: Option<u64>) -> (ended: bool)
        ensures
            final(self)@ == old(self)@.after_look(observed),
            ended == old(self)@.ends(observed),
    {
        if let (Some(snapshot), Some(position)) = (self.snapshot, observed) {
            let frame: u64 = if position <= snapshot.total_frames {
                position
            } else {
                snapshot.total_frames
            };
            match self.telemetry_seek {
                Some(target) => {
                    let distance: u64 = if frame >= target {
                        frame - target
                    } else {
                        target - frame
                    };
                    if distance <= PREVIEW_SEEK_TOLERANCE {
                        self.telemetry_seek = None;
                    }
                },
                None => {
                    self.position = frame_to_time(frame, snapshot.sample_rate);
                },
            }
            let reached_range = match self.range_end {
                Some(end) => self.position >= end,
                None => false,
            };
            if self.playing && (reached_range || frame >= snapshot.total_frames) {
                self.playing = false;
                self.range_end = None;
                return true;
            }
        }
        false
    }

    /// Takes news of the file, then looks at the callback. Playback that has come to the
    /// end of its range or of the file is paused.
    pub fn pump(&mut self, arrival: Arrival, observed: Option<u64>, quiet: Metronome) -> (commands:
        Vec<RealtimeCommand>)
        ensures
            final(self)@ == old(self)@.after_arrival(arrival).after_look(observed),
            commands@ == old(self)@.arrival_commands(arrival, quiet) + if old(
                self,
            )@.after_arrival(arrival).ends(observed) {
                seq![RealtimeCommand::Pause]
            } else {
                Seq::empty()
            },
    {
        let mut commands: Vec<RealtimeCommand> = Vec::new();
        self.arrive(arrival, quiet, &mut commands);
        let ghost installed = commands@;
        if self.look(observed) {
            commands.push(RealtimeCommand::Pause);
            assert(commands@ =~= installed + seq![RealtimeCommand::Pause]);
        }
        assert(Seq::<RealtimeCommand>::empty() + installed =~= installed);
        assert(installed + Seq::<RealtimeCommand>::empty() =~= installed);
        commands
    }
}

/// The time of a frame leads back to the frame, at any rate that a nanosecond can resolve
/// by half a frame and for any time that can be counted.
pub proof fn frame_time_leads_back(frame: u64, sample_rate: u32, total: u64)
    requires
        0 < sample_rate <= 500_000_000,
        frame <= total,
        frame * NANOS / sample_rate as int <= u64::MAX,
    ensures
        nearest_frame(
            frame_time(frame as int, sample_rate as int),
            sample_rate as int,
            total as int,
        ) == frame,
{
    let rate = sample_rate as int;
    let scaled = frame * NANOS;
    let nanos = scaled / rate;
    vstd::arithmetic::div_mod::lemma_fundamental_div_mod(scaled, rate);
    vstd::arithmetic::div_mod::lemma_mod_bound(scaled, rate);
    vstd::arithmetic::mul::lemma_mul_is_commutative(rate, nanos);
    assert(scaled - rate < nanos * rate <= scaled);
    if frame == 0 {
        assert(nanos == 0) by {
            vstd::arithmetic::div_mod::lemma_div_basics(rate);
        }
    } else {
        assert(nanos > 0) by (nonlinear_arith)
            requires
                scaled - rate < nanos * rate,
                scaled >= 1_000_000_000,
                0 < rate <= 500_000_000,
        ;
    }
}

/// Nothing but the user starts a preview: news of its file and looks at the callback only
/// ever end playback.
pub proof fn preview_never_starts_by_itself(
    preview: PreviewModel,
    arrival: Arrival,
    observed: Option<u64>,
)
    requires
        !preview.playing,
    ensures
        !preview.after_arrival(arrival).after_look(observed).playing,
{
}

/// A preview in error stays silent.
pub proof fn failed_preview_stays_silent(preview: PreviewModel, message: Seq<char>)
    ensures
        !preview.with_error(message).playing,
        preview.with_error(message).error is Some,
        !preview.with_error(message).loading,
{
}

/// A time is put on the nearest frame of the file, and beyond its end on the last.
pub proof fn times_meet_the_nearest_frame(nanos: int, sample_rate: int, total: int)
    requires
        0 < sample_rate,
        0 <= total,
    ensures
        nanos <= 0 ==> nearest_frame(nanos, sample_rate, total) == 0,
        nanos > 0 && nanos * sample_rate >= total * 1_000_000_000 ==> nearest_frame(
            nanos,
            sample_rate,
            total,
        ) == total,
        nanos > 0 && nanos * sample_rate < total * 1_000_000_000 ==> -1_000_000_000 < 2 * (
        nearest_frame(nanos, sample_rate, total) * 1_000_000_000 - nanos * sample_rate)
            <= 1_000_000_000,
{
}

/// A frame is at the last nanosecond that has passed when it comes.
pub proof fn frames_come_at_their_time(frame: int, sample_rate: int)
    requires
        0 <= frame,
        0 < sample_rate,
        frame_time(frame, sample_rate) < u64::MAX,
    ensures
        sample_rate * frame_time(frame, sample_rate) <= frame * 1_000_000_000 < sample_rate * (
        frame_time(frame, sample_rate) + 1),
{
    let total = frame * 1_000_000_000;
    vstd::arithmetic::div_mod::lemma_fundamental_div_mod(total, sample_rate);
    assert(0 <= total % sample_rate < sample_rate) by (nonlinear_arith)
        requires
            0 < sample_rate,
    ;
    let time = total / sample_rate;
    assert(sample_rate * (time + 1) == sample_rate * time + sample_rate) by (nonlinear_arith);
}

/// The play button turns playback on and off, and tells the callback so where there is something
/// to play; pressed again it leads back.
pub proof fn toggling_turns_playback_on_and_off(preview: PreviewModel)
    requires
        preview.error is None,
    ensures
        ({
            let (after, commands) = preview.toggled();
            &&& after.playing == !preview.playing
            &&& after.range_end is None
            &&& after == (PreviewModel { playing: after.playing, range_end: None, ..preview })
            &&& after.toggled().0.playing == preview.playing
            &&& preview.snapshot is None ==> commands.len() == 0
            &&& preview.snapshot is Some && after.playing ==> commands == seq![
                RealtimeCommand::Play,
            ]
            &&& preview.snapshot is Some && !after.playing ==> commands == seq![
                RealtimeCommand::Pause,
            ]
        }),
{
}

/// Stopping ends playback and goes back to the start.
pub proof fn stopping_goes_back_to_the_start(preview: PreviewModel)
    ensures
        ({
            let (after, commands) = preview.stopped();
            &&& !after.playing && after.position == 0 && after.range_end is None
            &&& after.telemetry_seek == Some(0u64)
            &&& after.snapshot == preview.snapshot && after.duration == preview.duration
            &&& after.loading == preview.loading && after.error == preview.error
            &&& preview.snapshot is Some ==> commands == seq![RealtimeCommand::Stop]
            &&& preview.snapshot is None ==> commands.len() == 0
        }),
{
}

/// Seeking goes where it is told, within the file, tells the callback the same place, and leaves
/// playback as it is.
pub proof fn seeking_goes_where_it_is_told(preview: PreviewModel, nanos: u64)
    ensures
        ({
            let (after, commands) = preview.sought(nanos);
            &&& preview.duration == 0 || nanos <= preview.duration ==> after.position == nanos
            &&& 0 < preview.duration < nanos ==> after.position == preview.duration
            &&& after.playing == preview.playing && after.snapshot == preview.snapshot
            &&& after.duration == preview.duration && after.error == preview.error
            &&& after.range_end is None
            &&& preview.snapshot is None ==> commands.len() == 0
            &&& preview.snapshot matches Some(snapshot) ==> {
                let frame = nearest_frame(
                    after.position as int,
                    snapshot.sample_rate as int,
                    snapshot.total_frames as int,
                ) as u64;
                commands == seq![RealtimeCommand::Seek(frame)] && after.telemetry_seek == Some(
                    frame,
                )
            }
        }),
{
}

/// A part of the file is played from its start, and playback will pause at its end; a part that
/// is empty, or of a file that failed, is not.
pub proof fn ranges_play_from_start_to_end(preview: PreviewModel, start: u64, end: u64)
    requires
        preview.duration > 0,
        end <= preview.duration,
    ensures
        ({
            let (after, commands) = preview.ranged(start, end);
            &&& start >= end || preview.error is Some ==> after == preview && commands.len() == 0
            &&& start < end && preview.error is None ==> {
                &&& after.playing && after.position == start && after.range_end == Some(end)
                &&& after.duration == preview.duration && after.snapshot == preview.snapshot
                &&& preview.snapshot is None ==> commands.len() == 0
                &&& preview.snapshot matches Some(snapshot) ==> commands == seq![
                    RealtimeCommand::Seek(
                        nearest_frame(
                            start as int,
                            snapshot.sample_rate as int,
                            snapshot.total_frames as int,
                        ) as u64,
                    ),
                    RealtimeCommand::Play,
                ]
            }
        }),
{
}

/// A file that has arrived is put in, silent but for the file itself, from where the position is,
/// and plays at once if it was to play; a file that failed says why and plays no more.
pub proof fn arrivals_are_put_in(
    preview: PreviewModel,
    snapshot: Snapshot,
    message: String,
    quiet: Metronome,
)
    requires
        preview.loading,
    ensures
        ({
            let after = preview.after_arrival(Arrival::Decoded(Ok(snapshot)));
            let commands = preview.arrival_commands(Arrival::Decoded(Ok(snapshot)), quiet);
            let failed = preview.after_arrival(Arrival::Decoded(Err(message)));
            &&& !after.loading && after.snapshot == Some(snapshot)
            &&& after.playing == preview.playing && after.error == preview.error
            &&& after.duration == frame_time(
                snapshot.total_frames as int,
                snapshot.sample_rate as int,
            ) as u64
            &&& after.duration > 0 && preview.position > after.duration ==> after.position
                == after.duration
            &&& preview.position <= after.duration ==> after.position == preview.position
            &&& commands[0] == RealtimeCommand::InstallSnapshot(snapshot)
            &&& commands.contains(RealtimeCommand::SetLoop(None))
            &&& commands.contains(RealtimeCommand::SetMetronome(quiet))
            &&& commands.contains(RealtimeCommand::Seek(after.telemetry_seek->0))
            &&& preview.playing <==> commands.contains(RealtimeCommand::Play)
            &&& preview.playing ==> commands.last() == RealtimeCommand::Play
            &&& !failed.loading && !failed.playing && failed.error == Some(message@)
            &&& preview.arrival_commands(Arrival::Decoded(Err(message)), quiet).len() == 0
            &&& preview.after_arrival(Arrival::Nothing) == preview
            &&& preview.after_arrival(Arrival::Disconnected).error is Some
        }),
{
    let commands = preview.arrival_commands(Arrival::Decoded(Ok(snapshot)), quiet);
    assert(commands[1] == RealtimeCommand::SetLoop(None));
    assert(commands[2] == RealtimeCommand::SetMetronome(quiet));
    assert(commands[3] is Seek);
    if preview.playing {
        assert(commands[4] == RealtimeCommand::Play);
    }
}

/// The position follows what is heard, once the callback is within 8,192 frames of where it was
/// told to seek; playback ends at the end of the part or of the file, and only there.
pub proof fn positions_follow_what_is_heard(
    preview: PreviewModel,
    snapshot: Snapshot,
    observed: u64,
)
    requires
        preview.snapshot == Some(snapshot),
        observed <= snapshot.total_frames,
    ensures
        ({
            let after = preview.after_look(Some(observed));
            &&& preview.telemetry_seek is None ==> after.position == frame_time(
                observed as int,
                snapshot.sample_rate as int,
            ) as u64
            &&& preview.telemetry_seek matches Some(target) ==> after.position == preview.position
                && (after.telemetry_seek is None <==> -8_192 <= observed - target <= 8_192)
            &&& preview.playing && !after.playing <==> preview.playing && (observed
                >= snapshot.total_frames || (preview.range_end matches Some(end) && after.position
                >= end))
            &&& !preview.playing ==> !after.playing
            &&& preview.ends(Some(observed)) <==> preview.playing && !after.playing
        }),
        preview.after_look(None) == preview,
        !preview.ends(None),
{
}

} // verus!
