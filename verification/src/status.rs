//! The status line: the last notice, and the last error that was raised.
use crate::text::{decimal, push_decimal};
use vstd::prelude::*;

verus! {

/// The part of the program that raised an error.
#[derive(Clone, Copy, Debug, PartialEq, Eq, Structural)]
pub enum Subsystem {
    Persistence,
    Watcher,
    AssetImport,
    TempoRegionSplit,
    ExternalProject,
    Audio,
    AudioDevice,
    AudioCompile,
    TimelineClock,
}

/// The name of a subsystem in logs.
pub open spec fn subsystem_label(subsystem: Subsystem) -> Seq<char> {
    match subsystem {
        Subsystem::Persistence => "persistence"@,
        Subsystem::Watcher => "watcher"@,
        Subsystem::AssetImport => "asset import"@,
        Subsystem::TempoRegionSplit => "tempo region split"@,
        Subsystem::ExternalProject => "external project"@,
        Subsystem::Audio => "audio"@,
        Subsystem::AudioDevice => "audio device"@,
        Subsystem::AudioCompile => "audio compile"@,
        Subsystem::TimelineClock => "timeline clock"@,
    }
}

impl Subsystem {
    /// The name of the subsystem in logs.
    pub fn label(self) -> (label: &'static str)
        ensures
            label@ == subsystem_label(self),
    {
        match self {
            Subsystem::Persistence => "persistence",
            Subsystem::Watcher => "watcher",
            Subsystem::AssetImport => "asset import",
            Subsystem::TempoRegionSplit => "tempo region split",
            Subsystem::ExternalProject => "external project",
            Subsystem::Audio => "audio",
            Subsystem::AudioDevice => "audio device",
            Subsystem::AudioCompile => "audio compile",
            Subsystem::TimelineClock => "timeline clock",
        }
    }
}

/// An error that the user should see.
#[derive(Debug)]
pub struct ControllerError {
    pub subsystem: Subsystem,
    pub message: String,
}

impl ControllerError {
    /// An error with its origin and its text.
    pub fn new(subsystem: Subsystem, message: &str) -> (error: Self)
        ensures
            error.subsystem == subsystem,
            error.message@ == message@,
    {
        ControllerError { subsystem, message: String::from_str(message) }
    }

    /// Whether the error has this origin and this text.
    pub open spec fn says(self, subsystem: Subsystem, message: Seq<char>) -> bool {
        self.subsystem == subsystem && self.message@ == message
    }
}

/// Something worth a line, but no error.
#[derive(Debug)]
pub enum Notice {
    Recovered(u64),
    Discarded(u64),
    Journaled(u64),
    LoadedExternal,
    Saved(u64),
    Importing(String),
    Imported(String),
    CreatingRegions(u64),
    CreatedRegions(u64),
    AudioReady(u64),
    DeviceReady(String),
    WaveformUnavailable(String),
}

/// The plural ending of a counted noun.
pub open spec fn plural(count: int) -> Seq<char> {
    if count == 1 {
        ""@
    } else {
        "s"@
    }
}

/// The line that a notice shows.
pub open spec fn notice_text(notice: Notice) -> Seq<char> {
    match notice {
        Notice::Recovered(count) => "Recovered "@ + decimal(count as nat) + " journaled edit(s)"@,
        Notice::Discarded(count) => "Discarded "@ + decimal(count as nat) + " recovery record(s)"@,
        Notice::Journaled(revision) => "Edit journaled · r"@ + decimal(revision as nat),
        Notice::LoadedExternal => "Loaded external canonical change"@,
        Notice::Saved(revision) => "Saved revision "@ + decimal(revision as nat),
        Notice::Importing(name) => "Importing "@ + name@ + "…"@,
        Notice::Imported(name) => "Imported "@ + name@,
        Notice::CreatingRegions(count) => "Creating "@ + decimal(count as nat) + " tempo region"@
            + plural(count as int) + "…"@,
        Notice::CreatedRegions(count) => "Created "@ + decimal(count as nat) + " tempo region"@
            + plural(count as int),
        Notice::AudioReady(revision) => "Audio ready · r"@ + decimal(revision as nat),
        Notice::DeviceReady(name) => "Audio device ready · "@ + name@,
        Notice::WaveformUnavailable(error) => "Waveform unavailable · "@ + error@,
    }
}

impl Notice {
    /// The line that the notice shows.
    pub fn text(&self) -> (text: String)
        ensures
            text@ == notice_text(*self),
    {
        let mut text = String::new();
        let ghost empty = text@;
        match self {
            Notice::Recovered(count) => {
                text.append("Recovered ");
                push_decimal(&mut text, *count);
                text.append(" journaled edit(s)");
            },
            Notice::Discarded(count) => {
                text.append("Discarded ");
                push_decimal(&mut text, *count);
                text.append(" recovery record(s)");
            },
            Notice::Journaled(revision) => {
                text.append("Edit journaled · r");
                push_decimal(&mut text, *revision);
            },
            Notice::LoadedExternal => text.append("Loaded external canonical change"),
            Notice::Saved(revision) => {
                text.append("Saved revision ");
                push_decimal(&mut text, *revision);
            },
            Notice::Importing(name) => {
                text.append("Importing ");
                text.append(name.as_str());
                text.append("…");
            },
            Notice::Imported(name) => {
                text.append("Imported ");
                text.append(name.as_str());
            },
            Notice::CreatingRegions(count) => {
                text.append("Creating ");
                push_decimal(&mut text, *count);
                text.append(" tempo region");
                text.append(plural_suffix(*count));
                text.append("…");
            },
            Notice::CreatedRegions(count) => {
                text.append("Created ");
                push_decimal(&mut text, *count);
                text.append(" tempo region");
                text.append(plural_suffix(*count));
            },
            Notice::AudioReady(revision) => {
                text.append("Audio ready · r");
                push_decimal(&mut text, *revision);
            },
            Notice::DeviceReady(name) => {
                text.append("Audio device ready · ");
                text.append(name.as_str());
            },
            Notice::WaveformUnavailable(error) => {
                text.append("Waveform unavailable · ");
                text.append(error.as_str());
            },
        }
        assert(text@ =~= notice_text(*self));
        text
    }
}

/// The plural ending of a counted noun.
pub fn plural_suffix(count: u64) -> (suffix: &'static str)
    ensures
        suffix@ == plural(count as int),
{
    if count == 1 {
        ""
    } else {
        "s"
    }
}

/// The status line.
#[derive(Debug)]
pub struct StatusLine {
    pub notice: Option<Notice>,
    pub error: Option<ControllerError>,
}

/// The status line as a mathematical value.
#[verifier::ext_equal]
pub struct StatusModel {
    pub notice: Option<Notice>,
    pub error: Option<(Subsystem, Seq<char>)>,
}

impl View for StatusLine {
    type V = StatusModel;

    open spec fn view(&self) -> StatusModel {
        StatusModel {
            notice: self.notice,
            error: match self.error {
                Some(error) => Some((error.subsystem, error.message@)),
                None => None,
            },
        }
    }
}

impl StatusLine {
    /// Whether the raised error has this origin and this text.
    pub open spec fn reports(self, subsystem: Subsystem, message: Seq<char>) -> bool {
        self.error is Some && self.error->0.says(subsystem, message)
    }

    /// Raises an error. The result tells whether it is news: the same error raised
    /// again leaves the line as it is.
    pub fn record_error(&mut self, error: ControllerError) -> (news: bool)
        ensures
            news == !old(self).reports(error.subsystem, error.message@),
            final(self).notice == old(self).notice,
            final(self).error == (if news {
                Some(error)
            } else {
                old(self).error
            }),
            final(self)@ == (StatusModel {
                error: Some((error.subsystem, error.message@)),
                ..old(self)@
            }),
    {
        let repeated = match &self.error {
            Some(current) => current.subsystem == error.subsystem && current.message
                == error.message,
            None => false,
        };
        if !repeated {
            self.error = Some(error);
        }
        !repeated
    }

    /// Shows a notice.
    pub fn notify(&mut self, notice: Notice)
        ensures
            final(self).notice == Some(notice),
            final(self).error == old(self).error,
    {
        self.notice = Some(notice);
    }

    /// Takes back an error about the audio device, and no other.
    pub fn device_recovered(&mut self)
        ensures
            final(self).notice == old(self).notice,
            final(self).error == (if old(self).error is Some && old(self).error->0.subsystem
                == Subsystem::AudioDevice {
                None
            } else {
                old(self).error
            }),
    {
        let about_device = match &self.error {
            Some(error) => error.subsystem == Subsystem::AudioDevice,
            None => false,
        };
        if about_device {
            self.error = None;
        }
    }

    /// What the line shows: the error where there is one, else the notice.
    pub open spec fn shown(self) -> Option<Seq<char>> {
        match (self.error, self.notice) {
            (Some(error), _) => Some(error.message@),
            (None, Some(notice)) => Some(notice_text(notice)),
            (None, None) => None,
        }
    }

    /// What the line shows.
    pub fn text(&self) -> (text: Option<String>)
        ensures
            text is Some == self.shown() is Some,
            text is Some ==> text->0@ == self.shown()->0,
    {
        match (&self.error, &self.notice) {
            (Some(error), _) => Some(error.message.clone()),
            (None, Some(notice)) => Some(notice.text()),
            (None, None) => None,
        }
    }
}

/// What is shown is the error, and the notice only where there is none; one region is not called
/// several.
pub proof fn errors_are_shown_before_notices(
    error: ControllerError,
    notice: Notice,
    hidden: Option<Notice>,
)
    ensures
        (StatusLine { error: Some(error), notice: hidden }).shown() == Some(error.message@),
        (StatusLine { error: None, notice: Some(notice) }).shown() == Some(notice_text(notice)),
        (StatusLine { error: None, notice: None }).shown() is None,
        plural(1).len() == 0,
        plural(0) == "s"@ && plural(2) == "s"@,
{
    reveal_strlit("");
}

} // verus!
