//! Opening the output device, and opening it again when it goes away.
//!
//! The policy of recovery belongs to the audio engine; this module keeps what the shell
//! has to remember around it.
use crate::asset_preview::text_view;
use crate::controller::{ControllerModel, NativeController};
use crate::queue::Metronome;
use crate::status::{ControllerError, Notice, StatusModel, Subsystem};
use crate::text::{decimal, push_decimal};
use crate::timeline::Transport;
use vstd::prelude::*;

verus! {

/// Milliseconds before a device that could not be opened is tried again.
pub const DEVICE_RETRY: u64 = 500;

/// Notifications of the device that one look takes at most.
pub const DEVICE_NOTIFICATION_CAPACITY: usize = 8;

/// What the recovery policy asks for.
#[derive(Clone, Copy, Debug, PartialEq, Eq, Structural)]
pub enum RecoveryAction {
    /// Nothing to do now.
    Idle,
    /// Open a replacement under this generation.
    Open { generation: u64 },
    /// The policy has given up after this many attempts.
    Exhausted { attempts: u64 },
}

/// What the shell remembers of its output device.
#[derive(Clone, Copy, Debug, PartialEq, Eq, Structural)]
pub struct DeviceState {
    /// A device is being opened.
    pub opening: bool,
    /// When a first device may be opened again, in milliseconds.
    pub next_open: u64,
    /// The generation of the next first device.
    pub next_generation: u64,
    /// A device is open.
    pub open: bool,
    /// A recovery policy watches over a device.
    pub recovering: bool,
}

/// The text of a recovery that has given up.
pub open spec fn exhausted_message(attempts: nat) -> Seq<char> {
    "device recovery exhausted after "@ + decimal(attempts) + " attempt(s); retrying"@
}

impl DeviceState {
    /// No device yet; one may be opened at once.
    pub fn new(now: u64) -> (state: Self)
        ensures
            state == (DeviceState {
                opening: false,
                next_open: now,
                next_generation: 0,
                open: false,
                recovering: false,
            }),
    {
        DeviceState {
            opening: false,
            next_open: now,
            next_generation: 0,
            open: false,
            recovering: false,
        }
    }

    /// Whether a first device may be opened.
    pub open spec fn may_bootstrap(self, now: u64) -> bool {
        !self.opening && now >= self.next_open
    }

    /// The generation under which to open a first device, where that may be done.
    pub fn request_bootstrap_device(&mut self, now: u64) -> (generation: Option<u64>)
        ensures
            generation == (if old(self).may_bootstrap(now) {
                Some(old(self).next_generation)
            } else {
                None
            }),
            *final(self) == (if old(self).may_bootstrap(now) {
                DeviceState {
                    next_generation: crate::pages::least(
                        old(self).next_generation + 1,
                        u64::MAX as int,
                    ) as u64,
                    ..*old(self)
                }
            } else {
                *old(self)
            }),
    {
        if self.opening || now < self.next_open {
            return None;
        }
        let generation: u64 = self.next_generation;
        self.next_generation = generation.saturating_add(1);
        Some(generation)
    }

    /// Notes whether the opening thread took a request.
    pub fn request_device(&mut self, accepted: bool)
        ensures
            *final(self) == (DeviceState { opening: accepted, ..*old(self) }),
    {
        self.opening = accepted;
    }

    /// A device was opened; `watched` tells whether a recovery policy could be set up for it
    /// where there was none.
    pub fn opened(&mut self, watched: bool)
        ensures
            *final(self) == (DeviceState {
                opening: false,
                open: true,
                recovering: old(self).recovering || watched,
                ..*old(self)
            }),
    {
        self.opening = false;
        self.open = true;
        self.recovering = self.recovering || watched;
    }

    /// A device could not be opened. A first device is tried again after a while; for a
    /// replacement, `true` asks for the recovery policy's word.
    pub fn open_failed(&mut self, replacement: bool, now: u64) -> (ask_policy: bool)
        ensures
            ask_policy == (replacement && old(self).recovering),
            *final(self) == (DeviceState {
                opening: false,
                next_open: if replacement {
                    old(self).next_open
                } else {
                    crate::pages::least(now + DEVICE_RETRY, u64::MAX as int) as u64
                },
                ..*old(self)
            }),
    {
        self.opening = false;
        if replacement {
            self.recovering
        } else {
            self.next_open = now.saturating_add(DEVICE_RETRY);
            false
        }
    }

    /// Whether notifications of the device should be looked at: not while another is
    /// being opened.
    pub fn takes_notifications(&self) -> (takes: bool)
        ensures
            takes == !self.opening,
    {
        !self.opening
    }

    /// The state after the recovery policy spoke.
    pub open spec fn after_action(self, action: RecoveryAction, now: u64) -> Self {
        match action {
            RecoveryAction::Idle => self,
            RecoveryAction::Open { generation } => DeviceState {
                next_generation: crate::pages::greatest(
                    self.next_generation as int,
                    crate::pages::least(generation + 1, u64::MAX as int),
                ) as u64,
                open: false,
                ..self
            },
            RecoveryAction::Exhausted { .. } => DeviceState {
                open: false,
                recovering: false,
                next_open: crate::pages::least(now + DEVICE_RETRY, u64::MAX as int) as u64,
                ..self
            },
        }
    }

    /// Follows the recovery policy. A replacement closes the present device; a policy
    /// that has given up closes it, is reported, and starts over after a while.
    pub fn handle_device_action(
        &mut self,
        action: RecoveryAction,
        now: u64,
    ) -> (error: Option<ControllerError>)
        ensures
            *final(self) == old(self).after_action(action, now),
            error is Some <==> action is Exhausted,
            action matches RecoveryAction::Exhausted { attempts } ==> error->0.says(
                Subsystem::AudioDevice,
                exhausted_message(attempts as nat),
            ),
    {
        match action {
            RecoveryAction::Idle => None,
            RecoveryAction::Open { generation } => {
                let next: u64 = generation.saturating_add(1);
                if next > self.next_generation {
                    self.next_generation = next;
                }
                self.open = false;
                None
            },
            RecoveryAction::Exhausted { attempts } => {
                self.open = false;
                self.recovering = false;
                self.next_open = now.saturating_add(DEVICE_RETRY);
                let mut message = String::from_str("device recovery exhausted after ");
                push_decimal(&mut message, attempts);
                message.append(" attempt(s); retrying");
                Some(ControllerError { subsystem: Subsystem::AudioDevice, message })
            },
        }
    }
}

/// Whether an observation of the device concerns the device that is in use.
pub fn observation_is_current(observed: u64, active: u64) -> (current: bool)
    ensures
        current == (observed == active),
{
    observed == active
}

/// The output devices as they were last seen.
#[derive(Debug)]
pub struct DeviceObservation {
    /// The device that the system plays to by default.
    pub default_output: Option<String>,
    /// The device that was chosen by name is there.
    pub pinned_available: bool,
}

impl View for DeviceObservation {
    type V = (Option<Seq<char>>, bool);

    open spec fn view(&self) -> (Option<Seq<char>>, bool) {
        (text_view(self.default_output), self.pinned_available)
    }
}

/// What the thread that watches the devices remembers.
#[derive(Debug)]
pub struct DeviceWatch {
    /// The generation of the device that is in use.
    pub generation: u64,
    pub last_sent: Option<DeviceObservation>,
}

impl DeviceWatch {
    /// What was last reported.
    pub open spec fn reported(self) -> Option<(Option<Seq<char>>, bool)> {
        match self.last_sent {
            Some(observation) => Some(observation@),
            None => None,
        }
    }

    /// A device was opened, and nothing reported yet.
    pub fn new(generation: u64) -> (watch: Self)
        ensures
            watch.generation == generation,
            watch.last_sent is None,
    {
        DeviceWatch { generation, last_sent: None }
    }

    /// Whether a look at the devices is to be reported: only what differs from the last report.
    /// A look that failed is not.
    pub fn poll_device_observation(&self, observation: &Option<DeviceObservation>) -> (news: bool)
        ensures
            news == match *observation {
                Some(observation) => self.reported() != Some(observation@),
                None => false,
            },
    {
        match (observation, &self.last_sent) {
            (None, _) => false,
            (Some(_), None) => true,
            (Some(seen), Some(last)) => {
                let same_default = match (&seen.default_output, &last.default_output) {
                    (Some(seen), Some(last)) => *seen == *last,
                    (None, None) => true,
                    _ => false,
                };
                !same_default || seen.pinned_available != last.pinned_available
            },
        }
    }

    /// Remembers a report, where it was taken.
    pub fn sent(&mut self, observation: DeviceObservation, taken: bool)
        ensures
            final(self).generation == old(self).generation,
            final(self).last_sent == if taken {
                Some(observation)
            } else {
                old(self).last_sent
            },
    {
        if taken {
            self.last_sent = Some(observation);
        }
    }
}

/// What happens around the output device.
#[derive(Debug)]
pub enum DeviceNews {
    /// A device of this name was opened; a policy watches over it, if one could be set up.
    Opened { name: String, watched: bool },
    /// A device could not be opened.
    Failed { replacement: bool, error: String },
    /// The recovery policy has spoken.
    Policy(RecoveryAction),
    /// There are no more news for now.
    Look,
}

/// What is to be done about the output device.
#[derive(Clone, Copy, Debug, PartialEq, Eq, Structural)]
pub enum DeviceTask {
    Nothing,
    /// Tell the policy that a replacement could not be opened.
    ReportFailure,
    /// Ask the policy what is due.
    PollPolicy,
    /// Have a device opened, then tell [`DeviceState::request_device`] whether that was taken.
    Open { generation: u64, replacement: bool },
}

/// The state after news.
pub open spec fn device_after(device: DeviceState, news: DeviceNews, now: u64) -> DeviceState {
    match news {
        DeviceNews::Opened { watched, .. } => DeviceState {
            opening: false,
            open: true,
            recovering: device.recovering || watched,
            ..device
        },
        DeviceNews::Failed { replacement, .. } => DeviceState {
            opening: false,
            next_open: if replacement {
                device.next_open
            } else {
                crate::pages::least(now + DEVICE_RETRY, u64::MAX as int) as u64
            },
            ..device
        },
        DeviceNews::Policy(action) => device.after_action(action, now),
        DeviceNews::Look => if !device.recovering && device.may_bootstrap(now) {
            DeviceState {
                next_generation: crate::pages::least(
                    device.next_generation + 1,
                    u64::MAX as int,
                ) as u64,
                ..device
            }
        } else {
            device
        },
    }
}

/// What is to be done after news.
pub open spec fn device_task(device: DeviceState, news: DeviceNews, now: u64) -> DeviceTask {
    match news {
        DeviceNews::Opened { .. } => DeviceTask::Nothing,
        DeviceNews::Failed { replacement, .. } => if replacement && device.recovering {
            DeviceTask::ReportFailure
        } else {
            DeviceTask::Nothing
        },
        DeviceNews::Policy(RecoveryAction::Open { generation }) => DeviceTask::Open {
            generation,
            replacement: true,
        },
        DeviceNews::Policy(_) => DeviceTask::Nothing,
        DeviceNews::Look => if device.recovering {
            DeviceTask::PollPolicy
        } else if device.may_bootstrap(now) {
            DeviceTask::Open { generation: device.next_generation, replacement: false }
        } else {
            DeviceTask::Nothing
        },
    }
}

impl<T, P> ControllerModel<T, P> {
    /// The controller without an error about the audio device.
    pub open spec fn device_recovered(self) -> Self {
        ControllerModel {
            status: StatusModel {
                error: match self.status.error {
                    Some((subsystem, message)) => if subsystem == Subsystem::AudioDevice {
                        None
                    } else {
                        Some((subsystem, message))
                    },
                    None => None,
                },
                ..self.status
            },
            ..self
        }
    }

    /// The controller after news of the output device. A new device starts where the old one
    /// was; what fails is reported.
    pub open spec fn after_device(
        self,
        news: DeviceNews,
        transport: Transport,
        observed: Option<u64>,
        quiet: Metronome,
    ) -> Self {
        match news {
            DeviceNews::Opened { name, .. } => self.restored(transport, observed, quiet).noting(
                Notice::DeviceReady(name),
            ).device_recovered(),
            DeviceNews::Failed { error, .. } => self.raising(Subsystem::AudioDevice, error@),
            DeviceNews::Policy(RecoveryAction::Exhausted { attempts }) => self.raising(
                Subsystem::AudioDevice,
                exhausted_message(attempts as nat),
            ),
            _ => self,
        }
    }
}

impl<T, P> NativeController<T, P> {
    /// Takes news of the output device, and tells what is to be done.
    pub fn pump_device(
        &mut self,
        device: &mut DeviceState,
        news: DeviceNews,
        transport: &Transport,
        observed: Option<u64>,
        quiet: Metronome,
        now: u64,
    ) -> (task: DeviceTask)
        ensures
            final(self)@ == old(self)@.after_device(news, *transport, observed, quiet),
            *final(device) == device_after(*old(device), news, now),
            task == device_task(*old(device), news, now),
    {
        match news {
            DeviceNews::Opened { name, watched } => {
                device.opened(watched);
                self.restore_audio(transport, observed, quiet);
                self.notify(Notice::DeviceReady(name));
                let ghost noted = self@;
                self.status.device_recovered();
                assert(self@ =~= noted.device_recovered());
                DeviceTask::Nothing
            },
            DeviceNews::Failed { replacement, error } => {
                self.record_error(
                    ControllerError { subsystem: Subsystem::AudioDevice, message: error },
                );
                if device.open_failed(replacement, now) {
                    DeviceTask::ReportFailure
                } else {
                    DeviceTask::Nothing
                }
            },
            DeviceNews::Policy(action) => {
                if let Some(error) = device.handle_device_action(action, now) {
                    self.record_error(error);
                }
                match action {
                    RecoveryAction::Open { generation } => DeviceTask::Open {
                        generation,
                        replacement: true,
                    },
                    _ => DeviceTask::Nothing,
                }
            },
            DeviceNews::Look => if device.recovering {
                DeviceTask::PollPolicy
            } else {
                match device.request_bootstrap_device(now) {
                    Some(generation) => DeviceTask::Open { generation, replacement: false },
                    None => DeviceTask::Nothing,
                }
            },
        }
    }
}

/// Generations never fall, and each device that is opened leaves its own behind, up to the
/// largest there is: the next first device gets another.
pub proof fn generations_grow(device: DeviceState, news: DeviceNews, now: u64)
    ensures
        device_after(device, news, now).next_generation >= device.next_generation,
        device_task(device, news, now) matches DeviceTask::Open { generation, .. } ==> generation
            < u64::MAX ==> device_after(device, news, now).next_generation > generation,
{
}

/// A first device is opened only where none is being opened and no policy watches over one.
pub proof fn first_devices_wait(device: DeviceState, news: DeviceNews, now: u64)
    ensures
        device_task(device, news, now) matches DeviceTask::Open { replacement: false, .. } ==> {
            &&& !device.opening
            &&& !device.recovering
            &&& now >= device.next_open
        },
{
}

/// A device that opened is open, and one that failed is not opened anew for half a second unless
/// it was to replace another; the policy that watches is told of a replacement that failed.
pub proof fn devices_open_or_rest(
    device: DeviceState,
    name: String,
    watched: bool,
    replacement: bool,
    error: String,
    now: u64,
)
    requires
        now <= u64::MAX - 500,
    ensures
        ({
            let news = DeviceNews::Opened { name, watched };
            let opened = device_after(device, news, now);
            let lost = DeviceNews::Failed { replacement, error };
            let failed = device_after(device, lost, now);
            &&& opened.open && !opened.opening
            &&& opened.recovering <==> device.recovering || watched
            &&& opened.next_open == device.next_open && opened.next_generation
                == device.next_generation
            &&& device_task(device, news, now) is Nothing
            &&& !failed.opening && failed.open == device.open && failed.recovering
                == device.recovering
            &&& replacement ==> failed.next_open == device.next_open
            &&& !replacement ==> failed.next_open == now + 500
            &&& device_task(device, lost, now) is ReportFailure <==> replacement
                && device.recovering
        }),
{
}

/// What the policy says is done: it has a replacement opened under its generation, which no later
/// device will have; or it has given up, and a first device is opened after half a second.
pub proof fn policies_are_followed(device: DeviceState, generation: u64, attempts: u64, now: u64)
    requires
        generation < u64::MAX,
        now <= u64::MAX - 500,
    ensures
        ({
            let open = DeviceNews::Policy(RecoveryAction::Open { generation });
            let ended = DeviceNews::Policy(RecoveryAction::Exhausted { attempts });
            let idle = DeviceNews::Policy(RecoveryAction::Idle);
            let replacing = device_after(device, open, now);
            let given_up = device_after(device, ended, now);
            &&& device_task(device, open, now) == (DeviceTask::Open {
                generation,
                replacement: true,
            })
            &&& !replacing.open && replacing.next_generation > generation
            &&& replacing.next_generation >= device.next_generation
            &&& replacing.next_generation == device.next_generation || replacing.next_generation
                == generation + 1
            &&& replacing.recovering == device.recovering
            &&& !given_up.open && !given_up.recovering && given_up.next_open == now + 500
            &&& device_task(device, ended, now) is Nothing
            &&& device_after(device, idle, now) == device && device_task(device, idle, now)
                is Nothing
        }),
{
}

/// Without news the policy is asked what is due, if one watches; otherwise a first device is
/// opened, unless one is being opened or the last attempt was just now.
pub proof fn first_devices_are_opened_when_due(device: DeviceState, now: u64)
    ensures
        ({
            let task = device_task(device, DeviceNews::Look, now);
            let after = device_after(device, DeviceNews::Look, now);
            let due = !device.recovering && !device.opening && device.next_open <= now;
            &&& device.recovering <==> task is PollPolicy
            &&& due <==> task == (DeviceTask::Open {
                generation: device.next_generation,
                replacement: false,
            })
            &&& !device.recovering && !due ==> task is Nothing
            &&& due && device.next_generation < u64::MAX ==> after.next_generation
                == device.next_generation + 1
            &&& !due ==> after == device
        }),
{
}

/// The shell hears of its device: one that opened is told and takes its own error away, any other
/// error stays; one that failed is an error of the device.
pub proof fn device_news_is_told<T, P>(
    controller: ControllerModel<T, P>,
    name: String,
    error: String,
    attempts: u64,
    transport: Transport,
    observed: Option<u64>,
    quiet: Metronome,
)
    ensures
        ({
            let opened = controller.after_device(
                DeviceNews::Opened { name, watched: true },
                transport,
                observed,
                quiet,
            );
            let failed = controller.after_device(
                DeviceNews::Failed { replacement: false, error },
                transport,
                observed,
                quiet,
            );
            let ended = controller.after_device(
                DeviceNews::Policy(RecoveryAction::Exhausted { attempts }),
                transport,
                observed,
                quiet,
            );
            let looked = controller.after_device(DeviceNews::Look, transport, observed, quiet);
            &&& opened.status.notice == Some(Notice::DeviceReady(name))
            &&& opened.status.error matches Some(told) ==> told.0 != Subsystem::AudioDevice
            &&& opened.line == controller.restored(transport, observed, quiet).line
            &&& failed.status.error == Some((Subsystem::AudioDevice, error@))
            &&& failed.line == controller.line
            &&& ended.status.error == Some(
                (
                    Subsystem::AudioDevice,
                    "device recovery exhausted after "@ + decimal(attempts as nat)
                        + " attempt(s); retrying"@,
                ),
            )
            &&& looked == controller
        }),
{
}

} // verus!
