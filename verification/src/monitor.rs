//! Hearing a live input through the output device.
//!
//! Opening an input can take long. Every request carries a generation, and an answer
//! counts only while its request is the newest one.
use crate::asset_preview::text_view;
use vstd::prelude::*;

verus! {

/// The format that the output device settled on.
#[derive(Clone, Copy, Debug, PartialEq, Eq, Structural)]
pub struct OutputFormat {
    pub sample_rate: u32,
    pub buffer_frames: Option<u32>,
}

/// Whether two optional formats are the same.
pub fn same_format(a: Option<OutputFormat>, b: Option<OutputFormat>) -> (same: bool)
    ensures
        same == (a == b),
{
    match (a, b) {
        (Some(left), Some(right)) => left.sample_rate == right.sample_rate && match (
            left.buffer_frames,
            right.buffer_frames,
        ) {
            (Some(x), Some(y)) => x == y,
            (None, None) => true,
            _ => false,
        },
        (None, None) => true,
        _ => false,
    }
}

/// A request to the thread that opens inputs. Without an output it closes the input.
#[derive(Debug)]
pub struct OpenRequest {
    pub generation: u64,
    pub device: Option<String>,
    pub channel: usize,
    pub output: Option<OutputFormat>,
    /// The effect chain, by the number under which the shell keeps it.
    pub effects: u64,
}

/// An open input.
#[derive(Debug)]
pub struct ReadyInput {
    pub device_name: String,
    pub channels: u16,
}

/// What an opened input says of itself, and what became of its effects.
#[derive(Debug)]
pub struct OpenedInput {
    pub input: ReadyInput,
    pub effects_error: Option<String>,
}

/// The answer to a request.
#[derive(Debug)]
pub struct OpenResult {
    pub generation: u64,
    pub result: Result<OpenedInput, String>,
}

/// What the user sees.
#[derive(Debug)]
pub struct InputMonitorStatus {
    pub enabled: bool,
    pub opening: bool,
    pub device_name: Option<String>,
    pub channels: Option<u16>,
    pub error: Option<String>,
}

/// The monitor.
#[derive(Debug)]
pub struct InputMonitoring {
    /// The input is let through to the output.
    pub audible: bool,
    pub generation: u64,
    pub device: Option<String>,
    pub channel: usize,
    /// The user wants to hear the input.
    pub enabled: bool,
    pub output: Option<OutputFormat>,
    pub ready: Option<ReadyInput>,
    pub error: Option<String>,
    pub effects: u64,
    pub effects_pending: bool,
    pub effects_error: Option<String>,
}

/// A request as a mathematical value.
#[verifier::ext_equal]
pub struct RequestModel {
    pub generation: u64,
    pub device: Option<Seq<char>>,
    pub channel: usize,
    pub output: Option<OutputFormat>,
    pub effects: u64,
}

/// The monitor as a mathematical value.
#[verifier::ext_equal]
pub struct MonitorModel {
    pub audible: bool,
    pub generation: u64,
    pub device: Option<Seq<char>>,
    pub channel: usize,
    pub enabled: bool,
    pub output: Option<OutputFormat>,
    pub ready: Option<(Seq<char>, u16)>,
    pub error: Option<Seq<char>>,
    pub effects: u64,
    pub effects_pending: bool,
    pub effects_error: Option<Seq<char>>,
}

/// The generation after this one.
pub open spec fn next_generation(generation: u64) -> u64 {
    if generation == u64::MAX {
        0
    } else {
        (generation + 1) as u64
    }
}

/// The generation after this one.
pub fn following_generation(generation: u64) -> (next: u64)
    ensures
        next == next_generation(generation),
{
    if generation == u64::MAX {
        0
    } else {
        generation + 1
    }
}

impl View for OpenRequest {
    type V = RequestModel;

    open spec fn view(&self) -> RequestModel {
        RequestModel {
            generation: self.generation,
            device: text_view(self.device),
            channel: self.channel,
            output: self.output,
            effects: self.effects,
        }
    }
}

/// An optional request as a mathematical value.
pub open spec fn request_view(request: Option<OpenRequest>) -> Option<RequestModel> {
    match request {
        Some(request) => Some(request@),
        None => None,
    }
}

impl View for InputMonitoring {
    type V = MonitorModel;

    open spec fn view(&self) -> MonitorModel {
        MonitorModel {
            audible: self.audible,
            generation: self.generation,
            device: text_view(self.device),
            channel: self.channel,
            enabled: self.enabled,
            output: self.output,
            ready: match self.ready {
                Some(input) => Some((input.device_name@, input.channels)),
                None => None,
            },
            error: text_view(self.error),
            effects: self.effects,
            effects_pending: self.effects_pending,
            effects_error: text_view(self.effects_error),
        }
    }
}

impl MonitorModel {
    /// The monitor after it sent a request.
    pub open spec fn requesting(self, output: Option<OutputFormat>) -> Self {
        MonitorModel {
            generation: next_generation(self.generation),
            effects_pending: output is Some,
            ..self
        }
    }

    /// The request that the monitor sends when it is in this state.
    pub open spec fn request(self, output: Option<OutputFormat>) -> RequestModel {
        RequestModel {
            generation: self.generation,
            device: self.device,
            channel: self.channel,
            output,
            effects: self.effects,
        }
    }

    /// The monitor without an input.
    pub open spec fn silenced(self) -> Self {
        MonitorModel { audible: false, ready: None, output: None, ..self }
    }

    /// The monitor after it closed its input.
    pub open spec fn suspended(self) -> Self {
        self.silenced().requesting(None)
    }

    /// The monitor after the user chose an input.
    pub open spec fn configured(
        self,
        device: Option<Seq<char>>,
        channel: usize,
        enabled: bool,
    ) -> Self {
        if self.device == device && self.channel == channel && self.enabled == enabled {
            self
        } else {
            (MonitorModel { device, channel, enabled, error: None, ..self }).suspended()
        }
    }

    /// The output that the monitor works with, given what the device offers.
    pub open spec fn wanted_output(self, output: Option<OutputFormat>) -> Option<OutputFormat> {
        if self.enabled {
            output
        } else {
            None
        }
    }

    /// The monitor after it met an output device.
    pub open spec fn retargeted(self, output: Option<OutputFormat>) -> Self {
        let wanted = self.wanted_output(output);
        if self.output == wanted {
            self
        } else {
            (MonitorModel { audible: false, ready: None, output: wanted, ..self }).requesting(
                wanted,
            )
        }
    }

    /// Whether an answer still counts.
    pub open spec fn accepts(self, generation: u64) -> bool {
        generation == self.generation && self.enabled
    }

    /// The monitor after its input opened.
    pub open spec fn opened(self, opened: OpenedInput) -> Self {
        MonitorModel {
            effects_pending: false,
            effects_error: text_view(opened.effects_error),
            ready: Some((opened.input.device_name@, opened.input.channels)),
            audible: true,
            ..self
        }
    }

    /// The monitor after its input failed: off until the user turns it on again.
    pub open spec fn failed(self, message: Seq<char>) -> Self {
        MonitorModel {
            error: Some(message + ". Toggle monitoring on to retry."@),
            ..(MonitorModel { enabled: false, ..self }).suspended()
        }
    }

    /// The monitor after an answer.
    pub open spec fn after_answer(self, answer: OpenResult) -> Self {
        if !self.accepts(answer.generation) {
            self
        } else {
            match answer.result {
                Ok(opened) => self.opened(opened),
                Err(message) => self.failed(message@),
            }
        }
    }
}

fn copy_text(text: &Option<String>) -> (copy: Option<String>)
    ensures
        text_view(copy) == text_view(*text),
{
    match text {
        Some(value) => Some(value.clone()),
        None => None,
    }
}

fn same_optional_text(a: &Option<String>, b: &Option<String>) -> (same: bool)
    ensures
        same == (text_view(*a) == text_view(*b)),
{
    match (a, b) {
        (Some(left), Some(right)) => *left == *right,
        (None, None) => true,
        _ => false,
    }
}

impl InputMonitoring {
    /// A monitor that is off.
    pub fn new() -> (monitor: Self)
        ensures
            monitor@ == (MonitorModel {
                audible: false,
                generation: 0,
                device: None,
                channel: 0,
                enabled: false,
                output: None,
                ready: None,
                error: None,
                effects: 0,
                effects_pending: false,
                effects_error: None,
            }),
    {
        InputMonitoring {
            audible: false,
            generation: 0,
            device: None,
            channel: 0,
            enabled: false,
            output: None,
            ready: None,
            error: None,
            effects: 0,
            effects_pending: false,
            effects_error: None,
        }
    }

    fn request(&mut self, output: Option<OutputFormat>) -> (request: OpenRequest)
        ensures
            final(self)@ == old(self)@.requesting(output),
            request@ == final(self)@.request(output),
    {
        self.generation = following_generation(self.generation);
        self.effects_pending = output.is_some();
        OpenRequest {
            generation: self.generation,
            device: copy_text(&self.device),
            channel: self.channel,
            output,
            effects: self.effects,
        }
    }

    /// Takes the user's choice of input. Nothing happens where it is the present one.
    pub fn configure(
        &mut self,
        device: Option<String>,
        channel: usize,
        enabled: bool,
    ) -> (request: Option<OpenRequest>)
        ensures
            final(self)@ == old(self)@.configured(text_view(device), channel, enabled),
            request_view(request) == (if text_view(old(self).device) == text_view(device)
                && old(self)@.channel == channel && old(self)@.enabled == enabled {
                None
            } else {
                Some(final(self)@.request(None))
            }),
    {
        if same_optional_text(&self.device, &device) && self.channel == channel && self.enabled
            == enabled {
            return None;
        }
        self.device = device;
        self.channel = channel;
        self.enabled = enabled;
        self.error = None;
        Some(self.suspend())
    }

    /// Takes the user's effect chain. An open input keeps running while the chain is
    /// prepared.
    pub fn configure_effects(&mut self, effects: u64) -> (request: Option<OpenRequest>)
        ensures
            ({
                let changed = MonitorModel { effects, effects_error: None, ..old(self)@ };
                if old(self)@.effects == effects {
                    final(self)@ == old(self)@ && request is None
                } else if old(self)@.output is Some {
                    &&& final(self)@ == changed.requesting(old(self)@.output)
                    &&& request_view(request) == Some(
                        final(self)@.request(old(self)@.output),
                    )
                } else {
                    final(self)@ == changed && request is None
                }
            }),
    {
        if self.effects == effects {
            return None;
        }
        self.effects = effects;
        self.effects_error = None;
        if self.output.is_some() {
            Some(self.request(self.output))
        } else {
            None
        }
    }

    /// Whether effects are being prepared, and why they could not be.
    pub fn effects_status(&self) -> (status: (bool, Option<String>))
        ensures
            status.0 == self@.effects_pending,
            text_view(status.1) == self@.effects_error,
    {
        (self.effects_pending, copy_text(&self.effects_error))
    }

    /// Silences the input at once, also while it is being opened. The user's wish stays,
    /// so that an output that comes back opens the input again.
    pub fn suspend(&mut self) -> (request: OpenRequest)
        ensures
            final(self)@ == old(self)@.suspended(),
            request@ == final(self)@.request(None),
    {
        self.audible = false;
        self.ready = None;
        self.output = None;
        self.request(None)
    }

    /// The thread that opens inputs is gone.
    pub fn worker_stopped(&mut self)
        ensures
            final(self)@ == (MonitorModel {
                enabled: false,
                effects_pending: false,
                error: Some("Input monitor worker stopped; reopen the project to retry"@),
                ..old(self)@
            }),
    {
        self.enabled = false;
        self.effects_pending = false;
        self.error = Some(
            String::from_str("Input monitor worker stopped; reopen the project to retry"),
        );
    }

    /// Meets an output device, or the lack of one. A format that changed silences the
    /// input until it is open at the new one.
    pub fn retarget(&mut self, output: Option<OutputFormat>) -> (request: Option<OpenRequest>)
        ensures
            final(self)@ == old(self)@.retargeted(output),
            request_view(request) == (if old(self)@.output == old(self)@.wanted_output(output) {
                None
            } else {
                Some(final(self)@.request(old(self)@.wanted_output(output)))
            }),
    {
        let wanted = if self.enabled {
            output
        } else {
            None
        };
        if same_format(self.output, wanted) {
            return None;
        }
        self.audible = false;
        self.ready = None;
        self.output = wanted;
        Some(self.request(wanted))
    }

    /// Takes an answer of the thread that opens inputs. One that does not belong to the
    /// newest request is passed over.
    pub fn complete(&mut self, answer: OpenResult) -> (request: Option<OpenRequest>)
        ensures
            final(self)@ == old(self)@.after_answer(answer),
            request_view(request) == (if old(self)@.accepts(answer.generation)
                && answer.result is Err {
                Some(final(self)@.request(None))
            } else {
                None
            }),
    {
        if answer.generation != self.generation || !self.enabled {
            return None;
        }
        match answer.result {
            Ok(opened) => {
                self.effects_pending = false;
                self.effects_error = opened.effects_error;
                self.ready = Some(opened.input);
                self.audible = true;
                None
            },
            Err(message) => {
                self.enabled = false;
                let request = self.suspend();
                let mut text = message;
                text.append(". Toggle monitoring on to retry.");
                self.error = Some(text);
                Some(request)
            },
        }
    }

    /// What the user sees.
    pub fn status(&self) -> (status: InputMonitorStatus)
        ensures
            status.enabled == self@.enabled,
            status.opening == (self@.enabled && self@.ready is None),
            text_view(status.device_name) == (match self@.ready {
                Some(input) => Some(input.0),
                None => None,
            }),
            status.channels == (match self@.ready {
                Some(input) => Some(input.1),
                None => None,
            }),
            text_view(status.error) == self@.error,
    {
        let (device_name, channels) = match &self.ready {
            Some(input) => (Some(input.device_name.clone()), Some(input.channels)),
            None => (None, None),
        };
        InputMonitorStatus {
            enabled: self.enabled,
            opening: self.enabled && self.ready.is_none(),
            device_name,
            channels,
            error: copy_text(&self.error),
        }
    }
}

/// An input that is open, by what it was opened with.
#[derive(Debug)]
pub struct CaptureConfig {
    pub device: Option<String>,
    pub channel: usize,
    pub output: OutputFormat,
}

/// What the thread that opens inputs does with a request.
#[derive(Clone, Copy, Debug, PartialEq, Eq, Structural)]
pub enum CapturePlan {
    Close,
    /// Only the effects and the generation change.
    Keep,
    Reopen,
}

/// Whether an open input is the one that a request asks for.
pub open spec fn same_capture(active: CaptureConfig, request: OpenRequest) -> bool {
    &&& text_view(active.device) == text_view(request.device)
    &&& active.channel == request.channel
    &&& Some(active.output) == request.output
}

/// Decides what to do with a request: an input is opened anew only where the device, the
/// channel or the format differ.
pub fn capture_plan(active: &Option<CaptureConfig>, request: &OpenRequest) -> (plan: CapturePlan)
    ensures
        plan == (if request.output is None {
            CapturePlan::Close
        } else if *active is Some && same_capture(active->0, *request) {
            CapturePlan::Keep
        } else {
            CapturePlan::Reopen
        }),
{
    if request.output.is_none() {
        return CapturePlan::Close;
    }
    match active {
        Some(config) => if same_optional_text(&config.device, &request.device) && config.channel
            == request.channel && same_format(Some(config.output), request.output) {
            CapturePlan::Keep
        } else {
            CapturePlan::Reopen
        },
        None => CapturePlan::Reopen,
    }
}

/// What is heard was wanted and opened: an audible input is enabled and ready. Every step
/// keeps this, but for the loss of the thread that opens inputs, after which the next
/// meeting with an output restores it.
pub open spec fn heard_only_if_wanted(monitor: MonitorModel) -> bool {
    monitor.audible ==> monitor.enabled && monitor.ready is Some
}

/// Choosing an input, meeting an output, editing effects and answers keep what is heard
/// wanted.
pub proof fn monitoring_is_heard_only_if_wanted(
    monitor: MonitorModel,
    device: Option<Seq<char>>,
    channel: usize,
    enabled: bool,
    output: Option<OutputFormat>,
    answer: OpenResult,
)
    requires
        heard_only_if_wanted(monitor),
    ensures
        heard_only_if_wanted(monitor.configured(device, channel, enabled)),
        heard_only_if_wanted(monitor.retargeted(output)),
        heard_only_if_wanted(monitor.requesting(output)),
        heard_only_if_wanted(monitor.suspended()),
        heard_only_if_wanted(monitor.after_answer(answer)),
{
}

/// Turning monitoring off silences it at once, and no answer that was under way makes it
/// audible again.
pub proof fn turning_off_is_final(
    monitor: MonitorModel,
    device: Option<Seq<char>>,
    channel: usize,
    answer: OpenResult,
)
    requires
        heard_only_if_wanted(monitor),
    ensures
        !monitor.configured(device, channel, false).audible,
        !monitor.configured(device, channel, false).after_answer(answer).audible,
        monitor.configured(device, channel, false).after_answer(answer) == monitor.configured(
            device,
            channel,
            false,
        ),
{
}

/// An answer to a request that was superseded changes nothing.
pub proof fn superseded_answers_change_nothing(
    monitor: MonitorModel,
    output: Option<OutputFormat>,
    answer: OpenResult,
)
    requires
        answer.generation == monitor.generation,
    ensures
        monitor.requesting(output).after_answer(answer) == monitor.requesting(output),
{
}

/// A failed input stays off, whatever the output does, until the user turns it on.
pub proof fn failure_needs_the_user(
    monitor: MonitorModel,
    message: Seq<char>,
    output: Option<OutputFormat>,
)
    ensures
        !monitor.failed(message).enabled,
        !monitor.failed(message).audible,
        monitor.failed(message).retargeted(output) == monitor.failed(message),
{
}

/// Editing effects never interrupts an open input.
pub proof fn effect_edits_keep_the_input_open(monitor: MonitorModel, effects: u64)
    ensures
        ({
            let edited = (MonitorModel { effects, effects_error: None, ..monitor }).requesting(
                monitor.output,
            );
            edited.audible == monitor.audible && edited.ready == monitor.ready && edited.output
                == monitor.output
        }),
{
}

/// What the user sets is what the monitor has; the input is then closed, and whatever was asked
/// for before is no longer awaited. Setting the same again changes nothing.
pub proof fn settings_are_taken_over(
    monitor: MonitorModel,
    device: Option<Seq<char>>,
    channel: usize,
    enabled: bool,
)
    ensures
        ({
            let after = monitor.configured(device, channel, enabled);
            let same = monitor.device == device && monitor.channel == channel && monitor.enabled
                == enabled;
            &&& after.device == device && after.channel == channel && after.enabled == enabled
            &&& same ==> after == monitor
            &&& !same ==> {
                &&& !after.audible && after.ready is None && after.output is None
                &&& after.error is None && !after.effects_pending
                &&& after.generation != monitor.generation
                &&& after.effects == monitor.effects
            }
        }),
{
}

/// The input is opened for the output that is there, while the user wants to hear it, and for
/// none otherwise; it is silent until it has been opened, and is asked for anew only if the
/// output changed.
pub proof fn inputs_are_opened_for_the_output(
    monitor: MonitorModel,
    output: Option<OutputFormat>,
)
    ensures
        ({
            let after = monitor.retargeted(output);
            let wanted = if monitor.enabled {
                output
            } else {
                None
            };
            let request = after.request(wanted);
            &&& after.output == wanted
            &&& monitor.output == wanted ==> after == monitor
            &&& monitor.output != wanted ==> {
                &&& !after.audible && after.ready is None
                &&& after.generation != monitor.generation
                &&& after.effects_pending <==> wanted is Some
                &&& after.device == monitor.device && after.channel == monitor.channel
                &&& after.enabled == monitor.enabled && after.error == monitor.error
            }
            &&& request.generation == after.generation && request.device == monitor.device
            &&& request.channel == monitor.channel && request.output == wanted && request.effects
                == monitor.effects
        }),
{
}

/// An input that was opened is heard and known by its name; one that failed is not tried again,
/// and says so. Neither touches what the user chose.
pub proof fn answers_are_heard_or_told(
    monitor: MonitorModel,
    opened: OpenedInput,
    message: String,
)
    requires
        monitor.enabled,
    ensures
        ({
            let open = monitor.after_answer(
                OpenResult { generation: monitor.generation, result: Ok(opened) },
            );
            let failed = monitor.after_answer(
                OpenResult { generation: monitor.generation, result: Err(message) },
            );
            &&& open.audible && open.enabled && !open.effects_pending
            &&& open.ready == Some((opened.input.device_name@, opened.input.channels))
            &&& open.effects_error == text_view(opened.effects_error)
            &&& open.generation == monitor.generation && open.device == monitor.device
                && open.channel == monitor.channel && open.error == monitor.error
            &&& !failed.audible && !failed.enabled && failed.ready is None
            &&& failed.error == Some(message@ + ". Toggle monitoring on to retry."@)
            &&& failed.generation != monitor.generation
            &&& failed.device == monitor.device && failed.channel == monitor.channel
        }),
{
}

/// An open input is kept exactly if the request asks for the same device, channel and format.
pub proof fn the_same_input_stays_open(active: CaptureConfig, request: OpenRequest)
    ensures
        same_capture(active, request) <==> request.output == Some(active.output) && active.channel
            == request.channel && text_view(active.device) == text_view(request.device),
{
}

/// Generations count up by one, and start over when they are used up.
pub proof fn generations_count_up(generation: u64)
    ensures
        generation < u64::MAX ==> next_generation(generation) == generation + 1,
        next_generation(u64::MAX) == 0,
{
}

} // verus!
