//! Keeping the rendered timeline under the playhead.
//!
//! The shell asks for a window of the timeline to be rendered, installs what comes
//! back, and asks again when the playhead nears the end of it or jumps out of it.
use crate::clock::{beat_to_frame, frame_position, frame_to_beat, position_frame};
use crate::compile::{same_request, WindowRequest};
use crate::pages::{
    chosen_window, lead_frames, lead_window_holds_playhead, least, primary_pages,
    PageWindow, AUDIO_PREPARE_LEAD_PAGES,
};
use crate::queue::{LoopRange, Metronome, RealtimeCommand, Snapshot};
use vstd::prelude::*;

verus! {

/// Frames by which an observed position may miss the target of a seek.
pub const SEEK_ACK_TOLERANCE_FRAMES: u64 = 8_192;

/// Milliseconds after which a failed render is tried again.
pub const AUDIO_COMPILE_RETRY: u64 = 250;

/// [`lead_frames`] as a machine number.
pub const AUDIO_LEAD_FRAMES: u64 = 524_288;

/// The transport, with its positions in frames.
#[derive(Clone, Copy, Debug)]
pub struct Transport {
    pub playing: bool,
    pub loop_enabled: bool,
    pub loop_start_frame: u64,
    /// The loop as the callback accepts it, where it does.
    pub loop_range: Option<LoopRange>,
    pub frame: u64,
    pub metronome: Metronome,
}

/// How the transport moved since it was last looked at.
#[derive(Clone, Copy, Debug)]
pub struct Motion {
    /// An end of the loop moved.
    pub loop_moved: bool,
    /// The tempo changed.
    pub tempo_changed: bool,
    /// The playhead is at the start.
    pub at_origin: bool,
    /// The playhead moved at all.
    pub moved: bool,
    /// The playhead moved backwards by more than rounding.
    pub rewound: bool,
    /// The playhead moved by more than half a beat.
    pub leapt: bool,
}

/// The parts of a beat by which a playhead that plays may seem to go back.
pub const REWIND_TOLERANCE: i64 = 9_600;

/// The parts of a beat that a playhead passes at most between two looks at it.
pub const LEAP: i64 = 480_000;

/// The transport as the project has it: positions in parts of a beat, the tempo in
/// thousandths of a beat per minute, zero where it is none.
#[derive(Clone, Copy, Debug, PartialEq, Eq, Structural)]
pub struct MusicalTransport {
    pub playing: bool,
    pub loop_enabled: bool,
    pub loop_start: i64,
    pub loop_end: i64,
    pub playhead: i64,
    pub tempo: u32,
}

impl MusicalTransport {
    /// The transport with its positions in frames. `accepted` tells whether the callback takes
    /// the loop.
    pub open spec fn in_frames(
        self,
        sample_rate: u32,
        metronome: Metronome,
        accepted: bool,
    ) -> Transport {
        let start = position_frame(self.loop_start as int, self.tempo as int, sample_rate as int);
        let end = position_frame(self.loop_end as int, self.tempo as int, sample_rate as int);
        Transport {
            playing: self.playing,
            loop_enabled: self.loop_enabled,
            loop_start_frame: start as u64,
            loop_range: if accepted {
                Some(LoopRange { start_frame: start as u64, end_frame: end as u64 })
            } else {
                None
            },
            frame: position_frame(
                self.playhead as int,
                self.tempo as int,
                sample_rate as int,
            ) as u64,
            metronome,
        }
    }

    /// The transport with its positions in frames. `accepted` tells whether the callback takes
    /// the loop.
    pub fn located(
        &self,
        sample_rate: u32,
        metronome: Metronome,
        accepted: bool,
    ) -> (transport: Transport)
        ensures
            transport == self.in_frames(sample_rate, metronome, accepted),
    {
        let start_frame: u64 = beat_to_frame(self.loop_start, self.tempo, sample_rate);
        let end_frame: u64 = beat_to_frame(self.loop_end, self.tempo, sample_rate);
        Transport {
            playing: self.playing,
            loop_enabled: self.loop_enabled,
            loop_start_frame: start_frame,
            loop_range: if accepted {
                Some(LoopRange { start_frame, end_frame })
            } else {
                None
            },
            frame: beat_to_frame(self.playhead, self.tempo, sample_rate),
            metronome,
        }
    }

    /// How the transport moved since it was `last`.
    pub open spec fn motion(self, last: Self) -> Motion {
        Motion {
            loop_moved: self.loop_start != last.loop_start || self.loop_end != last.loop_end,
            tempo_changed: self.tempo != last.tempo,
            at_origin: self.playhead <= 0,
            moved: self.playhead != last.playhead,
            rewound: self.playhead + REWIND_TOLERANCE < last.playhead,
            leapt: self.playhead - last.playhead > LEAP || last.playhead - self.playhead > LEAP,
        }
    }

    /// How the transport moved since it was `last`.
    pub fn motion_since(&self, last: &Self) -> (motion: Motion)
        ensures
            motion == self.motion(*last),
    {
        let ahead: i128 = self.playhead as i128 - last.playhead as i128;
        Motion {
            loop_moved: self.loop_start != last.loop_start || self.loop_end != last.loop_end,
            tempo_changed: self.tempo != last.tempo,
            at_origin: self.playhead <= 0,
            moved: self.playhead != last.playhead,
            rewound: ahead + (REWIND_TOLERANCE as i128) < 0,
            leapt: ahead > LEAP as i128 || -ahead > LEAP as i128,
        }
    }
}

/// A seek that the callback has not been seen to follow.
#[derive(Clone, Copy, Debug, PartialEq, Eq, Structural)]
pub struct PendingSeek {
    pub target: u64,
    pub observed_before: u64,
}

/// A rendered window and the revision it shows.
#[derive(Clone, Copy, Debug, PartialEq, Eq, Structural)]
pub struct ResidentWindow {
    pub revision: u64,
    pub window: PageWindow,
}

/// A composition, and its length in parts of a beat.
#[derive(Clone, Copy, Debug, PartialEq, Eq, Structural)]
pub struct CompositionLength {
    pub id: u128,
    pub length: i64,
}

/// The place of the first composition with an id, or the number of compositions.
pub open spec fn composition_place(compositions: Seq<CompositionLength>, id: u128) -> int
    decreases compositions.len(),
{
    if compositions.len() == 0 {
        0
    } else if compositions[0].id == id {
        0
    } else {
        1 + composition_place(compositions.skip(1), id)
    }
}

/// How many frames the silent timeline has that keeps the clock going while nothing is
/// rendered: as many as the composition at the root.
pub fn silent_timeline_frames(
    compositions: &Vec<CompositionLength>,
    root: u128,
    tempo: u32,
    sample_rate: u32,
) -> (frames: Result<u64, String>)
    ensures
        ({
            let place = composition_place(compositions@, root);
            if 0 <= place < compositions@.len() {
                frames == Ok::<u64, String>(
                    position_frame(
                        compositions@[place].length as int,
                        tempo as int,
                        sample_rate as int,
                    ) as u64,
                )
            } else {
                frames matches Err(message) && message@ == "root composition is missing"@
            }
        }),
{
    let mut place: usize = 0;
    assert(compositions@.skip(0) =~= compositions@);
    while place < compositions.len()
        invariant
            place <= compositions.len(),
            composition_place(compositions@, root) == place + composition_place(
                compositions@.skip(place as int),
                root,
            ),
        decreases compositions.len() - place,
    {
        let ghost rest = compositions@.skip(place as int);
        if compositions[place].id == root {
            return Ok(beat_to_frame(compositions[place].length, tempo, sample_rate));
        }
        assert(rest.skip(1) =~= compositions@.skip(place + 1));
        place += 1;
    }
    Err(String::from_str("root composition is missing"))
}

/// Where the playhead shows a frame of the callback, in parts of a beat: where the frame is, but
/// not beyond the end of the composition that is shown.
pub fn playhead_at(frame: u64, tempo: u32, sample_rate: u32, length: i64) -> (playhead: i64)
    ensures
        playhead == least(
            frame_position(frame as int, tempo as int, sample_rate as int),
            length as int,
        ),
{
    let position: i64 = frame_to_beat(frame, tempo, sample_rate);
    if position <= length {
        position
    } else {
        length
    }
}

/// The frame of the playhead.
pub fn transport_frame(transport: &Transport) -> (frame: u64)
    ensures
        frame == transport.frame,
{
    transport.frame
}

/// The start of the loop while it plays.
pub open spec fn anchor(transport: Transport) -> Option<u64> {
    if transport.playing && transport.loop_enabled {
        Some(transport.loop_start_frame)
    } else {
        None
    }
}

/// The start of the loop while it plays: the frame that playback will jump to.
pub fn loop_anchor(transport: &Transport) -> (frame: Option<u64>)
    ensures
        frame == anchor(*transport),
{
    if transport.playing && transport.loop_enabled {
        Some(transport.loop_start_frame)
    } else {
        None
    }
}

/// The loop that the callback should follow.
pub open spec fn active_loop(transport: Transport) -> Option<LoopRange> {
    if transport.loop_enabled {
        transport.loop_range
    } else {
        None
    }
}

/// The loop that the callback should follow.
pub fn realtime_loop(transport: &Transport) -> (range: Option<LoopRange>)
    ensures
        range == active_loop(*transport),
{
    if transport.loop_enabled {
        transport.loop_range
    } else {
        None
    }
}

/// The commands that bring the callback to the state of the transport.
pub open spec fn state_commands(transport: Transport) -> Seq<RealtimeCommand> {
    seq![
        RealtimeCommand::SetLoop(active_loop(transport)),
        RealtimeCommand::SetMetronome(transport.metronome),
        RealtimeCommand::Seek(transport.frame),
        if transport.playing {
            RealtimeCommand::Play
        } else {
            RealtimeCommand::Pause
        },
    ]
}

/// The commands that bring the callback to the state of the transport, and the frame
/// they move it to.
pub fn timeline_state_commands(transport: &Transport) -> (state: (u64, Vec<RealtimeCommand>))
    ensures
        state.0 == transport.frame,
        state.1@ == state_commands(*transport),
{
    let mut commands: Vec<RealtimeCommand> = Vec::new();
    commands.push(RealtimeCommand::SetLoop(realtime_loop(transport)));
    commands.push(RealtimeCommand::SetMetronome(transport.metronome));
    commands.push(RealtimeCommand::Seek(transport.frame));
    commands.push(
        if transport.playing {
            RealtimeCommand::Play
        } else {
            RealtimeCommand::Pause
        },
    );
    assert(commands@ =~= state_commands(*transport));
    (transport.frame, commands)
}

/// Whether an observed position shows that the callback followed a seek: it is near the
/// target, or on the target's side of where the callback was before.
pub open spec fn follows_seek(pending: PendingSeek, observed: int) -> bool {
    ||| pending.target - SEEK_ACK_TOLERANCE_FRAMES <= observed <= pending.target
        + SEEK_ACK_TOLERANCE_FRAMES
    ||| pending.target < pending.observed_before && observed < pending.observed_before
    ||| pending.target > pending.observed_before && observed >= pending.target
    ||| pending.target == pending.observed_before && observed != pending.observed_before
}

/// Whether the callback has followed a seek.
pub fn seek_was_observed(pending: PendingSeek, observed: u64) -> (followed: bool)
    ensures
        followed == follows_seek(pending, observed as int),
{
    let distance: u64 = if observed >= pending.target {
        observed - pending.target
    } else {
        pending.target - observed
    };
    if distance <= SEEK_ACK_TOLERANCE_FRAMES {
        true
    } else if pending.target < pending.observed_before {
        observed < pending.observed_before
    } else if pending.target > pending.observed_before {
        observed >= pending.target
    } else {
        observed != pending.observed_before
    }
}

/// Whether a render of `completed` is still wanted.
pub fn completion_is_current(completed: u64, latest: u64) -> (current: bool)
    ensures
        current == (completed == latest),
{
    completed == latest
}

/// What is rendered, what is being rendered, and what the callback was last told.
#[derive(Clone, Copy, Debug)]
pub struct AudioTimeline {
    pub latest_revision: u64,
    pub submitted_revision: u64,
    pub resident_window: Option<ResidentWindow>,
    pub requested_window: Option<WindowRequest>,
    /// When a failed render may be tried again, in milliseconds.
    pub compile_retry_at: Option<u64>,
    pub telemetry_seek: Option<PendingSeek>,
    pub last_transport: Transport,
    pub latest_snapshot: Option<Snapshot>,
    /// The revision whose silent stand-in keeps the clock running.
    pub timeline_clock_revision: Option<u64>,
}

/// Where a render should be centred: ahead of a playhead that moves.
pub open spec fn focus_for(transport: Transport, frame: u64) -> u64 {
    if transport.playing {
        least(frame + lead_frames(), u64::MAX as int) as u64
    } else {
        frame
    }
}

fn focus_frame(playing: bool, frame: u64) -> (focus: u64)
    ensures
        playing ==> focus == least(frame + lead_frames(), u64::MAX as int),
        !playing ==> focus == frame,
{
    assert(lead_frames() == AUDIO_LEAD_FRAMES);
    if playing {
        frame.saturating_add(AUDIO_LEAD_FRAMES)
    } else {
        frame
    }
}

/// Whether the callback must be told of the loop.
pub open spec fn loop_changed(last: Transport, current: Transport, motion: Motion) -> bool {
    current.loop_enabled != last.loop_enabled || motion.loop_moved || motion.tempo_changed
}

/// Whether the callback must be told of the metronome.
pub open spec fn metronome_changed(last: Transport, current: Transport, motion: Motion) -> bool {
    ||| current.metronome.enabled != last.metronome.enabled
    ||| motion.tempo_changed
    ||| current.metronome.numerator != last.metronome.numerator
    ||| current.metronome.denominator != last.metronome.denominator
}

/// Whether the playhead was put somewhere, rather than played to.
pub open spec fn jumped(current: Transport, motion: Motion) -> bool {
    ||| !current.playing && motion.moved
    ||| current.playing && motion.rewound
    ||| motion.leapt
}

/// The command that starts, pauses or stops the callback.
pub open spec fn play_command(current: Transport, motion: Motion) -> RealtimeCommand {
    if current.playing {
        RealtimeCommand::Play
    } else if motion.at_origin {
        RealtimeCommand::Stop
    } else {
        RealtimeCommand::Pause
    }
}

/// A playhead that plays on, by no more than it can between two looks, is never taken for one
/// that was put somewhere.
pub proof fn playing_on_is_no_jump(
    last: MusicalTransport,
    current: MusicalTransport,
    sample_rate: u32,
    metronome: Metronome,
    accepted: bool,
)
    requires
        current.playing,
        last.playhead <= current.playhead <= last.playhead + LEAP,
    ensures
        !jumped(current.in_frames(sample_rate, metronome, accepted), current.motion(last)),
{
}

/// A list of at most one command.
pub open spec fn only_if(condition: bool, command: RealtimeCommand) -> Seq<RealtimeCommand> {
    if condition {
        seq![command]
    } else {
        Seq::empty()
    }
}

/// The commands that follow a move of the transport.
pub open spec fn sync_commands(
    last: Transport,
    current: Transport,
    motion: Motion,
) -> Seq<RealtimeCommand> {
    only_if(loop_changed(last, current, motion), RealtimeCommand::SetLoop(active_loop(current)))
        + only_if(
        metronome_changed(last, current, motion),
        RealtimeCommand::SetMetronome(current.metronome),
    ) + only_if(current.playing != last.playing, play_command(current, motion)) + only_if(
        jumped(current, motion),
        RealtimeCommand::Seek(current.frame),
    )
}

impl AudioTimeline {
    /// A timeline of which nothing is rendered or asked for.
    pub open spec fn fresh(last_transport: Transport) -> Self {
        AudioTimeline {
            latest_revision: 0,
            submitted_revision: 0,
            resident_window: None,
            requested_window: None,
            compile_retry_at: None,
            telemetry_seek: None,
            last_transport,
            latest_snapshot: None,
            timeline_clock_revision: None,
        }
    }

    /// A timeline of which nothing is rendered.
    pub fn new(last_transport: Transport) -> (timeline: Self)
        ensures
            timeline == AudioTimeline::fresh(last_transport),
    {
        AudioTimeline {
            latest_revision: 0,
            submitted_revision: 0,
            resident_window: None,
            requested_window: None,
            compile_retry_at: None,
            telemetry_seek: None,
            last_transport,
            latest_snapshot: None,
            timeline_clock_revision: None,
        }
    }

    /// The timeline after it asked for a render.
    pub open spec fn requesting(self, request: WindowRequest) -> Self {
        AudioTimeline { compile_retry_at: None, requested_window: Some(request), ..self }
    }

    /// Asks for a render of `revision`. The result goes to the renderer.
    pub fn request_audio_window(
        &mut self,
        revision: u64,
        focus_frame: u64,
        secondary_frame: Option<u64>,
    ) -> (request: WindowRequest)
        ensures
            request == (WindowRequest { revision, focus_frame, secondary_frame }),
            *final(self) == old(self).requesting(request),
    {
        let request = WindowRequest { revision, focus_frame, secondary_frame };
        self.compile_retry_at = None;
        self.requested_window = Some(request);
        request
    }

    /// Whether a revision is rendered or on its way.
    pub open spec fn has_or_awaits(self, revision: u64) -> bool {
        ||| self.requested_window is Some && self.requested_window->0.revision == revision
        ||| self.resident_window is Some && self.resident_window->0.revision == revision
    }

    /// Whether a revision is rendered or on its way.
    pub fn audio_revision_requested_or_resident(&self, revision: u64) -> (known: bool)
        ensures
            known == self.has_or_awaits(revision),
    {
        let requested = match self.requested_window {
            Some(request) => request.revision == revision,
            None => false,
        };
        let resident = match self.resident_window {
            Some(resident) => resident.revision == revision,
            None => false,
        };
        requested || resident
    }

    /// Whether the rendered window serves a playhead that was put at `frame`.
    pub open spec fn covers(self, transport: Transport, frame: u64) -> bool {
        &&& self.resident_window is Some
        &&& self.resident_window->0.revision == self.latest_revision
        &&& self.resident_window->0.window.holds(frame as int)
        &&& anchor(transport) is Some ==> self.resident_window->0.window.holds(
            anchor(transport)->0 as int,
        )
    }

    /// The request that follows a jump of the playhead to `frame`.
    pub open spec fn retarget(self, transport: Transport, frame: u64) -> Option<WindowRequest> {
        let request = WindowRequest {
            revision: self.latest_revision,
            focus_frame: focus_for(transport, frame),
            secondary_frame: anchor(transport),
        };
        if self.covers(transport, frame) || self.requested_window == Some(request) {
            None
        } else {
            Some(request)
        }
    }

    /// The timeline after an optional request.
    pub open spec fn maybe_requesting(self, request: Option<WindowRequest>) -> Self {
        match request {
            Some(request) => self.requesting(request),
            None => self,
        }
    }

    /// Moves the render to a playhead that jumped to `frame`, unless what is rendered
    /// or on its way already serves it. Playback by itself never comes here.
    pub fn retarget_audio_for_discontinuity(
        &mut self,
        transport: &Transport,
        frame: u64,
    ) -> (request: Option<WindowRequest>)
        ensures
            request == old(self).retarget(*transport, frame),
            *final(self) == old(self).maybe_requesting(request),
    {
        let secondary = loop_anchor(transport);
        let covered = match self.resident_window {
            Some(resident) => resident.revision == self.latest_revision && resident.window.contains(
                frame,
            ) && match secondary {
                Some(frame) => resident.window.contains(frame),
                None => true,
            },
            None => false,
        };
        if covered {
            return None;
        }
        let wanted = WindowRequest {
            revision: self.latest_revision,
            focus_frame: focus_frame(transport.playing, frame),
            secondary_frame: secondary,
        };
        let awaited = match self.requested_window {
            Some(request) => same_request(request, wanted),
            None => false,
        };
        if awaited {
            return None;
        }
        Some(
            self.request_audio_window(wanted.revision, wanted.focus_frame, wanted.secondary_frame),
        )
    }

    /// Whether the rendered window is of no use to the playhead, or soon will be.
    pub open spec fn needs_window(self, transport: Transport) -> bool {
        match self.resident_window {
            None => true,
            Some(resident) => {
                ||| resident.revision != self.latest_revision
                ||| !resident.window.holds(transport.frame as int)
                ||| transport.playing && resident.window.end_frame < resident.window.total_frames
                    && resident.window.end_frame - transport.frame <= lead_frames()
            },
        }
    }

    /// The request that the course of time calls for. A render of the latest revision
    /// that is on its way is left to finish, wherever the playhead went meanwhile.
    pub open spec fn scheduled(self, transport: Transport, now: u64) -> Option<WindowRequest> {
        if self.compile_retry_at is Some && now < self.compile_retry_at->0 {
            None
        } else if self.requested_window is Some && self.requested_window->0.revision
            == self.latest_revision {
            None
        } else if self.needs_window(transport) {
            Some(
                WindowRequest {
                    revision: self.latest_revision,
                    focus_frame: focus_for(transport, transport.frame),
                    secondary_frame: anchor(transport),
                },
            )
        } else {
            None
        }
    }

    /// Asks for a render where the course of time calls for one.
    pub fn schedule_audio_pages(
        &mut self,
        transport: &Transport,
        now: u64,
    ) -> (request: Option<WindowRequest>)
        ensures
            request == old(self).scheduled(*transport, now),
            *final(self) == old(self).maybe_requesting(request),
    {
        if let Some(retry_at) = self.compile_retry_at {
            if now < retry_at {
                return None;
            }
        }
        if let Some(request) = self.requested_window {
            if request.revision == self.latest_revision {
                return None;
            }
        }
        assert(lead_frames() == AUDIO_LEAD_FRAMES);
        let needed = match self.resident_window {
            None => true,
            Some(resident) => resident.revision != self.latest_revision
                || !resident.window.contains(transport.frame) || (transport.playing
                && resident.window.end_frame < resident.window.total_frames
                && resident.window.end_frame.saturating_sub(transport.frame) <= AUDIO_LEAD_FRAMES),
        };
        if needed {
            Some(
                self.request_audio_window(
                    self.latest_revision,
                    focus_frame(transport.playing, transport.frame),
                    loop_anchor(transport),
                ),
            )
        } else {
            None
        }
    }

    /// The timeline after it told the callback to seek, where `observed` is where the
    /// callback was, if there is one.
    pub open spec fn seeking(self, target: u64, observed: Option<u64>) -> Self {
        AudioTimeline {
            telemetry_seek: Some(
                PendingSeek {
                    target,
                    observed_before: match observed {
                        Some(frame) => frame,
                        None => target,
                    },
                },
            ),
            ..self
        }
    }

    /// Notes that the callback was told to seek.
    pub fn begin_telemetry_seek(&mut self, target: u64, observed: Option<u64>)
        ensures
            *final(self) == old(self).seeking(target, observed),
    {
        let observed_before: u64 = match observed {
            Some(frame) => frame,
            None => target,
        };
        self.telemetry_seek = Some(PendingSeek { target, observed_before });
    }

    /// The timeline after it followed a move of the transport.
    pub open spec fn synced(self, current: Transport, motion: Motion, observed: Option<u64>) -> Self {
        let sought = if jumped(current, motion) {
            self.seeking(current.frame, observed)
        } else {
            self
        };
        let moved = if jumped(current, motion) || loop_changed(
            self.last_transport,
            current,
            motion,
        ) {
            sought.maybe_requesting(sought.retarget(current, current.frame))
        } else {
            sought
        };
        AudioTimeline { last_transport: current, ..moved }
    }

    /// Follows a move of the transport: the commands for the callback, and the render
    /// that a jump or a changed loop calls for.
    pub fn sync_transport(
        &mut self,
        current: Transport,
        motion: Motion,
        observed: Option<u64>,
    ) -> (effects: (Vec<RealtimeCommand>, Option<WindowRequest>))
        ensures
            effects.0@ == sync_commands(old(self).last_transport, current, motion),
            effects.1 == (if jumped(current, motion) || loop_changed(
                old(self).last_transport,
                current,
                motion,
            ) {
                old(self).retarget(current, current.frame)
            } else {
                None
            }),
            *final(self) == old(self).synced(current, motion, observed),
    {
        let last = self.last_transport;
        let mut commands: Vec<RealtimeCommand> = Vec::new();
        let loop_news = current.loop_enabled != last.loop_enabled || motion.loop_moved
            || motion.tempo_changed;
        if loop_news {
            commands.push(RealtimeCommand::SetLoop(realtime_loop(&current)));
        }
        if current.metronome.enabled != last.metronome.enabled || motion.tempo_changed
            || current.metronome.numerator != last.metronome.numerator
            || current.metronome.denominator != last.metronome.denominator {
            commands.push(RealtimeCommand::SetMetronome(current.metronome));
        }
        if current.playing != last.playing {
            commands.push(
                if current.playing {
                    RealtimeCommand::Play
                } else if motion.at_origin {
                    RealtimeCommand::Stop
                } else {
                    RealtimeCommand::Pause
                },
            );
        }
        let jump = (!current.playing && motion.moved) || (current.playing && motion.rewound)
            || motion.leapt;
        let mut request = None;
        if jump {
            self.begin_telemetry_seek(current.frame, observed);
            commands.push(RealtimeCommand::Seek(current.frame));
            request = self.retarget_audio_for_discontinuity(&current, current.frame);
        } else if loop_news {
            request = self.retarget_audio_for_discontinuity(&current, current.frame);
        }
        self.last_transport = current;
        assert(commands@ =~= sync_commands(last, current, motion));
        (commands, request)
    }

    /// Whether the callback runs on the latest revision, rendered or silent.
    pub open spec fn clock_is_current(self) -> bool {
        ||| self.resident_window is Some && self.resident_window->0.revision
            == self.latest_revision
        ||| self.timeline_clock_revision == Some(self.latest_revision)
    }

    /// Whether the playhead should follow the callback at `observed`.
    pub open spec fn follows(self, observed: Option<u64>) -> bool {
        &&& self.clock_is_current()
        &&& observed is Some
        &&& self.telemetry_seek is Some ==> follows_seek(
            self.telemetry_seek->0,
            observed->0 as int,
        )
    }

    /// The frame that the playhead should show, where it should follow the callback:
    /// the callback runs on the latest revision and has followed the last seek.
    pub fn sync_callback_playhead(&mut self, observed: Option<u64>) -> (frame: Option<u64>)
        ensures
            frame == (if old(self).follows(observed) {
                observed
            } else {
                None
            }),
            *final(self) == (AudioTimeline {
                telemetry_seek: if old(self).follows(observed) {
                    None
                } else {
                    old(self).telemetry_seek
                },
                ..*old(self)
            }),
    {
        let rendered = match self.resident_window {
            Some(resident) => resident.revision == self.latest_revision,
            None => false,
        };
        let silent = match self.timeline_clock_revision {
            Some(revision) => revision == self.latest_revision,
            None => false,
        };
        if !rendered && !silent {
            return None;
        }
        match observed {
            None => None,
            Some(frame) => {
                if let Some(pending) = self.telemetry_seek {
                    if !seek_was_observed(pending, frame) {
                        return None;
                    }
                    self.telemetry_seek = None;
                }
                Some(frame)
            },
        }
    }
}

/// A render of the latest revision owns its target until it completes: however the
/// playhead moves and however long it takes, time alone asks for nothing else.
pub proof fn playback_never_restarts_a_render(
    timeline: AudioTimeline,
    transport: Transport,
    now: u64,
)
    requires
        timeline.requested_window is Some,
        timeline.requested_window->0.revision == timeline.latest_revision,
    ensures
        timeline.scheduled(transport, now) is None,
        timeline.maybe_requesting(timeline.scheduled(transport, now)) == timeline,
{
}

/// Once a request has gone out, a second look asks for nothing more.
pub proof fn scheduling_is_settled(
    timeline: AudioTimeline,
    transport: Transport,
    now: u64,
    later: u64,
)
    requires
        timeline.scheduled(transport, now) is Some,
    ensures
        timeline.maybe_requesting(timeline.scheduled(transport, now)).scheduled(transport, later)
            is None,
{
}

/// A jump is served once: retargeting a second time asks for nothing more.
pub proof fn retargeting_is_settled(timeline: AudioTimeline, transport: Transport, frame: u64)
    ensures
        timeline.maybe_requesting(timeline.retarget(transport, frame)).retarget(transport, frame)
            is None,
{
}

/// A window that was rendered for a playing transport serves it: it holds the playhead
/// with more than the lead ahead of it, or reaches the end, so nothing else is asked for
/// as long as the playhead has not moved.
pub proof fn rendered_window_needs_no_other(
    timeline: AudioTimeline,
    transport: Transport,
    window: PageWindow,
    channels: int,
    secondary: Option<u64>,
)
    requires
        channels > 0,
        transport.playing,
        transport.frame < window.total_frames,
        transport.frame + lead_frames() <= u64::MAX,
        chosen_window(
            window,
            window.total_frames as int,
            channels,
            focus_for(transport, transport.frame) as int,
            secondary,
        ),
        primary_pages(
            window.total_frames as int,
            channels,
            focus_for(transport, transport.frame) as int,
            secondary,
        ) / 4 >= AUDIO_PREPARE_LEAD_PAGES,
        timeline.resident_window == Some(
            ResidentWindow { revision: timeline.latest_revision, window },
        ),
    ensures
        !timeline.needs_window(transport),
{
    lead_window_holds_playhead(
        window,
        window.total_frames,
        channels,
        transport.frame as int,
        secondary,
    );
    assert(lead_frames() == AUDIO_LEAD_FRAMES);
}

/// A seek is followed at the latest when playback has passed its target, so a playhead
/// never freezes behind a seek that came through between two looks.
pub proof fn passing_the_target_ends_a_seek(pending: PendingSeek, observed: int)
    requires
        pending.target >= pending.observed_before,
        observed >= pending.target,
    ensures
        follows_seek(pending, observed),
{
}

/// Reaching the target itself always ends a seek.
pub proof fn reaching_the_target_ends_a_seek(pending: PendingSeek)
    ensures
        follows_seek(pending, pending.target as int),
{
}

/// The callback is told to play exactly when the transport began to, and to pause or to stop
/// exactly when it ceased to: replayed on a callback in the state of the last transport, the
/// commands leave it playing exactly if the present one plays.
pub proof fn the_callback_plays_when_the_transport_does(
    last: Transport,
    current: Transport,
    motion: Motion,
)
    ensures
        ({
            let commands = sync_commands(last, current, motion);
            &&& commands.contains(RealtimeCommand::Play) <==> !last.playing && current.playing
            &&& commands.contains(RealtimeCommand::Pause) || commands.contains(
                RealtimeCommand::Stop,
            ) <==> last.playing && !current.playing
            &&& commands.contains(RealtimeCommand::Stop) <==> last.playing && !current.playing
                && motion.at_origin
        }),
{
    let commands = sync_commands(last, current, motion);
    let a = only_if(
        loop_changed(last, current, motion),
        RealtimeCommand::SetLoop(active_loop(current)),
    );
    let b = only_if(
        metronome_changed(last, current, motion),
        RealtimeCommand::SetMetronome(current.metronome),
    );
    let c = only_if(current.playing != last.playing, play_command(current, motion));
    let d = only_if(jumped(current, motion), RealtimeCommand::Seek(current.frame));
    assert(commands == a + b + c + d);
    if current.playing != last.playing {
        assert(commands[(a + b).len() as int] == play_command(current, motion));
    }
}

/// The callback is told to seek exactly when the playhead was put somewhere, and then to where
/// the playhead is. A playhead that rests was put somewhere if it moved at all; one that plays
/// if it went back by more than a hundredth of a beat, or by more than half a beat either way.
pub proof fn the_callback_seeks_where_the_playhead_is_put(
    last: MusicalTransport,
    current: MusicalTransport,
    sample_rate: u32,
    metronome: Metronome,
    accepted: bool,
    before: Transport,
)
    ensures
        ({
            let now = current.in_frames(sample_rate, metronome, accepted);
            let commands = sync_commands(before, now, current.motion(last));
            let put = if current.playing {
                ||| last.playhead - current.playhead > 9_600
                ||| current.playhead - last.playhead > 480_000
            } else {
                current.playhead != last.playhead
            };
            &&& commands.contains(RealtimeCommand::Seek(now.frame)) <==> put
            &&& forall|frame: u64|
                commands.contains(RealtimeCommand::Seek(frame)) ==> frame == now.frame
        }),
{
    let now = current.in_frames(sample_rate, metronome, accepted);
    let motion = current.motion(last);
    let commands = sync_commands(before, now, motion);
    if jumped(now, motion) {
        assert(commands.last() == RealtimeCommand::Seek(now.frame));
    }
}

/// The callback is told of the loop exactly when the loop was turned on or off, one of its ends
/// moved or the tempo changed, and is told the loop as it now is, or that there is none.
pub proof fn the_callback_learns_of_a_changed_loop(
    last: MusicalTransport,
    current: MusicalTransport,
    sample_rate: u32,
    metronome: Metronome,
    accepted: bool,
    before: Transport,
)
    requires
        before.loop_enabled == last.loop_enabled,
    ensures
        ({
            let now = current.in_frames(sample_rate, metronome, accepted);
            let commands = sync_commands(before, now, current.motion(last));
            let told = current.loop_enabled != last.loop_enabled || current.loop_start
                != last.loop_start || current.loop_end != last.loop_end || current.tempo
                != last.tempo;
            let range = if current.loop_enabled {
                now.loop_range
            } else {
                None
            };
            &&& commands.contains(RealtimeCommand::SetLoop(range)) <==> told
            &&& forall|other: Option<LoopRange>|
                commands.contains(RealtimeCommand::SetLoop(other)) ==> other == range
        }),
{
    let now = current.in_frames(sample_rate, metronome, accepted);
    let motion = current.motion(last);
    let commands = sync_commands(before, now, motion);
    if loop_changed(before, now, motion) {
        assert(commands[0] == RealtimeCommand::SetLoop(active_loop(now)));
    }
}

/// The callback is told of the metronome exactly when it was turned on or off, or the tempo or
/// the meter changed, and is told the metronome as it now is.
pub proof fn the_callback_learns_of_a_changed_metronome(
    last: Transport,
    current: Transport,
    motion: Motion,
)
    ensures
        ({
            let commands = sync_commands(last, current, motion);
            let told = current.metronome.enabled != last.metronome.enabled
                || current.metronome.numerator != last.metronome.numerator
                || current.metronome.denominator != last.metronome.denominator
                || motion.tempo_changed;
            &&& commands.contains(RealtimeCommand::SetMetronome(current.metronome)) <==> told
            &&& forall|other: Metronome|
                commands.contains(RealtimeCommand::SetMetronome(other)) ==> other
                    == current.metronome
        }),
{
    let commands = sync_commands(last, current, motion);
    let a = only_if(
        loop_changed(last, current, motion),
        RealtimeCommand::SetLoop(active_loop(current)),
    );
    if metronome_changed(last, current, motion) {
        assert(commands[a.len() as int] == RealtimeCommand::SetMetronome(current.metronome));
    }
}

/// A state that is told anew says everything: the loop, the metronome, the place, and whether it
/// plays, which comes last.
pub proof fn a_state_is_told_whole(transport: Transport)
    ensures
        ({
            let commands = state_commands(transport);
            &&& commands.len() == 4
            &&& commands.contains(RealtimeCommand::Seek(transport.frame))
            &&& commands.contains(RealtimeCommand::SetMetronome(transport.metronome))
            &&& transport.loop_enabled ==> commands.contains(
                RealtimeCommand::SetLoop(transport.loop_range),
            )
            &&& !transport.loop_enabled ==> commands.contains(RealtimeCommand::SetLoop(None))
            &&& transport.playing ==> commands.last() == RealtimeCommand::Play
            &&& !transport.playing ==> commands.last() == RealtimeCommand::Pause
        }),
{
    let commands = state_commands(transport);
    assert(commands[0] == RealtimeCommand::SetLoop(active_loop(transport)));
    assert(commands[1] == RealtimeCommand::SetMetronome(transport.metronome));
    assert(commands[2] == RealtimeCommand::Seek(transport.frame));
}

/// Following a move remembers it, seeks only where the playhead was put, and leaves everything
/// but the seek, the request and the transport as it was.
pub proof fn following_a_move_changes_little(
    timeline: AudioTimeline,
    current: Transport,
    motion: Motion,
    observed: Option<u64>,
)
    ensures
        ({
            let after = timeline.synced(current, motion, observed);
            let put = if current.playing {
                motion.rewound || motion.leapt
            } else {
                motion.moved || motion.leapt
            };
            &&& after.last_transport == current
            &&& after.latest_revision == timeline.latest_revision
            &&& after.submitted_revision == timeline.submitted_revision
            &&& after.resident_window == timeline.resident_window
            &&& after.latest_snapshot == timeline.latest_snapshot
            &&& after.timeline_clock_revision == timeline.timeline_clock_revision
            &&& put ==> (after.telemetry_seek matches Some(seek) && seek.target == current.frame
                && (observed matches Some(frame) ==> seek.observed_before == frame))
            &&& !put ==> after.telemetry_seek == timeline.telemetry_seek
            &&& !put && !motion.loop_moved && !motion.tempo_changed && current.loop_enabled
                == timeline.last_transport.loop_enabled ==> after.requested_window
                == timeline.requested_window
        }),
{
}

/// A request for a render is of the latest revision, keeps the start of a loop that plays in
/// view, and looks at the playhead, or ahead of it while it plays: by eight pages of 65,536
/// frames.
pub proof fn requests_look_at_the_playhead(
    timeline: AudioTimeline,
    transport: Transport,
    frame: u64,
    now: u64,
)
    ensures
        timeline.retarget(transport, frame) matches Some(request) ==> {
            &&& request.revision == timeline.latest_revision
            &&& !transport.playing ==> request.focus_frame == frame
            &&& transport.playing && frame + 524_288 <= u64::MAX ==> request.focus_frame == frame
                + 524_288
            &&& transport.playing && transport.loop_enabled ==> request.secondary_frame == Some(
                transport.loop_start_frame,
            )
            &&& !(transport.playing && transport.loop_enabled) ==> request.secondary_frame is None
        },
        timeline.scheduled(transport, now) matches Some(request) ==> {
            &&& request.revision == timeline.latest_revision
            &&& !transport.playing ==> request.focus_frame == transport.frame
            &&& transport.playing && transport.frame + 524_288 <= u64::MAX ==> request.focus_frame
                == transport.frame + 524_288
            &&& transport.playing && transport.loop_enabled ==> request.secondary_frame == Some(
                transport.loop_start_frame,
            )
            &&& !(transport.playing && transport.loop_enabled) ==> request.secondary_frame is None
        },
{
    assert(lead_frames() == AUDIO_LEAD_FRAMES);
}

/// A playhead that nothing rendered serves is not left waiting: unless a failed render still
/// rests or one of the latest revision is on its way, a render is asked for where nothing is
/// rendered, where another revision is, where the playhead is outside, or where a playhead that
/// plays has no more than eight pages ahead of it.
pub proof fn playheads_are_served(timeline: AudioTimeline, transport: Transport, now: u64)
    ensures
        ({
            let rests = timeline.compile_retry_at matches Some(retry) && now < retry;
            let awaited = timeline.requested_window matches Some(request) && request.revision
                == timeline.latest_revision;
            let lacking = match timeline.resident_window {
                None => true,
                Some(resident) => {
                    ||| resident.revision != timeline.latest_revision
                    ||| !resident.window.holds(transport.frame as int)
                    ||| transport.playing && resident.window.end_frame
                        < resident.window.total_frames && resident.window.end_frame
                        - transport.frame <= 524_288
                },
            };
            timeline.scheduled(transport, now) is Some <==> !rests && !awaited && lacking
        }),
{
    assert(lead_frames() == AUDIO_LEAD_FRAMES);
}

/// A jump asks for a render unless what is rendered holds the place and the start of a loop that
/// plays, or the same render is on its way.
pub proof fn jumps_are_served(timeline: AudioTimeline, transport: Transport, frame: u64)
    requires
        timeline.requested_window is None,
    ensures
        timeline.retarget(transport, frame) is None <==> (timeline.resident_window matches Some(
            resident,
        ) && resident.revision == timeline.latest_revision && resident.window.holds(frame as int)
            && (transport.playing && transport.loop_enabled ==> resident.window.holds(
            transport.loop_start_frame as int,
        ))),
{
}

/// While no seek is under way, the playhead follows the callback exactly if what is rendered, or
/// the clock that ticks in its place, is of the latest revision; and it never follows a callback
/// that was not heard.
pub proof fn playheads_follow_what_is_heard(timeline: AudioTimeline, observed: u64)
    requires
        timeline.telemetry_seek is None,
    ensures
        timeline.follows(Some(observed)) <==> (timeline.resident_window matches Some(resident)
            && resident.revision == timeline.latest_revision) || timeline.timeline_clock_revision
            == Some(timeline.latest_revision),
        !timeline.follows(None),
{
}

/// A seek counts as followed within 8,192 frames of its target, and never while the callback
/// still stands where it was before, further away than that.
pub proof fn seeks_are_followed_near_their_target(pending: PendingSeek, observed: int)
    ensures
        pending.target - 8_192 <= observed <= pending.target + 8_192 ==> follows_seek(
            pending,
            observed,
        ),
        observed == pending.observed_before && !(pending.target - 8_192 <= observed
            <= pending.target + 8_192) ==> !follows_seek(pending, observed),
        pending.observed_before < pending.target && observed < pending.target - 8_192
            ==> !follows_seek(pending, observed),
        pending.target < pending.observed_before && observed >= pending.observed_before && observed
            > pending.target + 8_192 ==> !follows_seek(pending, observed),
{
}

/// What happened between two looks: a loop moved if either of its ends did, the tempo changed if
/// it is another, and a playhead is at the origin if it has not left it.
pub proof fn motions_tell_what_changed(last: MusicalTransport, current: MusicalTransport)
    ensures
        ({
            let motion = current.motion(last);
            &&& motion.at_origin <==> current.playhead <= 0
            &&& motion.moved <==> current.playhead != last.playhead
            &&& motion.tempo_changed <==> current.tempo != last.tempo
            &&& motion.loop_moved <==> current.loop_start != last.loop_start || current.loop_end
                != last.loop_end
            &&& motion.rewound <==> last.playhead - current.playhead > 9_600
            &&& motion.leapt <==> current.playhead - last.playhead > 480_000 || last.playhead
                - current.playhead > 480_000
        }),
{
}

/// A transport in frames is the same transport: it plays and loops as it did, its playhead and
/// its loop are where the clock puts them, and its metronome is the one that was given.
pub proof fn transports_are_the_same_in_frames(
    transport: MusicalTransport,
    sample_rate: u32,
    metronome: Metronome,
    accepted: bool,
)
    ensures
        ({
            let frames = transport.in_frames(sample_rate, metronome, accepted);
            &&& frames.playing == transport.playing
            &&& frames.loop_enabled == transport.loop_enabled
            &&& frames.metronome == metronome
            &&& frames.frame == crate::clock::position_frame(
                transport.playhead as int,
                transport.tempo as int,
                sample_rate as int,
            )
            &&& frames.loop_start_frame == crate::clock::position_frame(
                transport.loop_start as int,
                transport.tempo as int,
                sample_rate as int,
            )
            &&& accepted ==> (frames.loop_range matches Some(range) && range.start_frame
                == frames.loop_start_frame && range.end_frame == crate::clock::position_frame(
                transport.loop_end as int,
                transport.tempo as int,
                sample_rate as int,
            ))
            &&& !accepted ==> frames.loop_range is None
        }),
{
}

/// A composition is found by its id: the first that has it, if any has.
pub proof fn compositions_are_found_by_their_id(compositions: Seq<CompositionLength>, id: u128)
    ensures
        0 <= composition_place(compositions, id) <= compositions.len(),
        composition_place(compositions, id) < compositions.len()
            ==> compositions[composition_place(compositions, id)].id == id,
        forall|i: int|
            0 <= i < composition_place(compositions, id) ==> (#[trigger] compositions[i]).id != id,
    decreases compositions.len(),
{
    if compositions.len() > 0 && compositions[0].id != id {
        let rest = compositions.skip(1);
        compositions_are_found_by_their_id(rest, id);
        assert forall|i: int| 0 <= i < composition_place(compositions, id) implies (
        #[trigger] compositions[i]).id != id by {
            if i > 0 {
                assert(rest[i - 1] == compositions[i]);
            }
        }
    }
}

/// A seek is followed wherever the callback is seen on the side of the target: ahead of it after
/// a seek forward, before where it was after a seek backward, and anywhere after one in place.
pub proof fn seeks_are_followed_on_the_side_of_their_target(pending: PendingSeek, observed: int)
    ensures
        pending.target > pending.observed_before && observed >= pending.target ==> follows_seek(
            pending,
            observed,
        ),
        pending.target < pending.observed_before && observed < pending.observed_before
            ==> follows_seek(pending, observed),
        pending.target == pending.observed_before ==> follows_seek(pending, observed),
{
}

} // verus!
