//! What the user can ask of the project, and the keys that ask for it.
//!
//! Positions and lengths are counted in parts of a beat, tempos in thousandths of a beat
//! per minute, gains in thousandths, and times of the shell's clock in nanoseconds.
use crate::tempo::TempoSync;
use vstd::prelude::*;

verus! {

/// What is selected. Places are counted within the composition that is shown.
#[derive(Clone, Copy, Debug, PartialEq, Eq, Structural)]
pub enum Selection {
    Nothing,
    Asset(usize),
    MidiAsset(usize),
    Track { track: usize },
    Clip { track: usize, clip: usize },
    Effect { track: usize, clip: usize, effect: usize },
    Sampler { track: usize },
}

/// A change that the user asks for.
#[allow(inconsistent_fields)]
#[derive(Clone, Copy, Debug, PartialEq, Eq, Structural)]
pub enum Intent {
    TogglePlayback,
    Stop,
    /// Move the playhead.
    Seek(i64),
    ToggleRecording,
    ToggleLoop,
    ToggleMetronome,
    SetMetronomeGain(u32),
    SetBpm(u32),
    SetTimeSignature { numerator: u8, denominator: u8 },
    Back,
    NavigateToDepth(usize),
    EnterChild { track: usize, clip: usize },
    ToggleStructureLens,
    Select(Selection),
    ClearSelection,
    DeleteClip { track: usize, clip: usize },
    AddAssetClip {
        asset_id: u128,
        beat: i64,
        track: Option<usize>,
        tempo_sync: Option<TempoSync>,
    },
    AddEventDataClip { event_data_id: u128, beat: i64, track: Option<usize> },
    AddNote {
        track: usize,
        clip: usize,
        start: i64,
        length: i64,
        pitch: u8,
        velocity: u8,
    },
    EditNote {
        track: usize,
        clip: usize,
        event_index: usize,
        start: i64,
        length: i64,
        pitch: u8,
        velocity: u8,
    },
    DeleteNote { track: usize, clip: usize, event_index: usize },
    ToggleEffect { track: usize, clip: usize, effect: usize },
    MoveEffect { track: usize, clip: usize, effect: usize, delta: i8 },
    Undo(u64),
    Redo(u64),
    SimulateAgentChange(u64),
}

/// What the backspace key asks for.
pub open spec fn backspace(selection: Selection) -> Intent {
    match selection {
        Selection::Clip { track, clip } => Intent::DeleteClip { track, clip },
        _ => Intent::Back,
    }
}

/// What the backspace key asks for: it deletes a selected clip, and otherwise leads back.
pub fn backspace_intent(selection: Selection) -> (intent: Intent)
    ensures
        intent == backspace(selection),
{
    match selection {
        Selection::Clip { track, clip } => Intent::DeleteClip { track, clip },
        Selection::Nothing
        | Selection::Asset(_)
        | Selection::MidiAsset(_)
        | Selection::Track { .. }
        | Selection::Effect { .. }
        | Selection::Sampler { .. } => Intent::Back,
    }
}

/// A key of the shell, in the order in which the keys are looked for.
#[derive(Clone, Copy, Debug, PartialEq, Eq, Structural)]
pub enum Shortcut {
    Space,
    Home,
    Backspace,
    Escape,
    Enter,
    L,
    CommandR,
    CommandShiftZ,
    CommandZ,
}

/// The keys that were pressed since the last look.
#[derive(Clone, Copy, Debug, PartialEq, Eq, Structural)]
pub struct Pressed {
    pub space: bool,
    pub home: bool,
    pub backspace: bool,
    pub escape: bool,
    pub enter: bool,
    pub l: bool,
    pub command_r: bool,
    pub command_shift_z: bool,
    pub command_z: bool,
    pub open_bracket: bool,
    pub close_bracket: bool,
}

/// What a key does to the file that is listened to.
#[derive(Clone, Copy, Debug, PartialEq, Eq, Structural)]
pub enum PreviewKey {
    Toggle,
    Stop,
}

/// What the pressed keys ask for.
#[derive(Clone, Copy, Debug, PartialEq, Eq, Structural)]
pub struct KeyboardOutcome {
    /// The key that was used up.
    pub taken: Option<Shortcut>,
    pub preview: Option<PreviewKey>,
    pub intent: Option<Intent>,
    /// The opening bracket shows more of the arrangement, and is used up.
    pub zoom_out: bool,
    /// The closing bracket shows less of the arrangement, and is used up.
    pub zoom_in: bool,
}

/// The first of the pressed keys.
pub open spec fn first_pressed(pressed: Pressed) -> Option<Shortcut> {
    if pressed.space {
        Some(Shortcut::Space)
    } else if pressed.home {
        Some(Shortcut::Home)
    } else if pressed.backspace {
        Some(Shortcut::Backspace)
    } else if pressed.escape {
        Some(Shortcut::Escape)
    } else if pressed.enter {
        Some(Shortcut::Enter)
    } else if pressed.l {
        Some(Shortcut::L)
    } else if pressed.command_r {
        Some(Shortcut::CommandR)
    } else if pressed.command_shift_z {
        Some(Shortcut::CommandShiftZ)
    } else if pressed.command_z {
        Some(Shortcut::CommandZ)
    } else {
        None
    }
}

/// What a key asks for; the enter key opens a clip that is selected and nothing else.
pub open spec fn shortcut_intent(key: Shortcut, selection: Selection, now: u64) -> Option<Intent> {
    match key {
        Shortcut::Space => Some(Intent::TogglePlayback),
        Shortcut::Home => Some(Intent::Stop),
        Shortcut::Backspace => Some(backspace(selection)),
        Shortcut::Escape => Some(Intent::ClearSelection),
        Shortcut::Enter => match selection {
            Selection::Clip { track, clip } => Some(Intent::EnterChild { track, clip }),
            _ => None,
        },
        Shortcut::L => Some(Intent::ToggleStructureLens),
        Shortcut::CommandR => Some(Intent::SimulateAgentChange(now)),
        Shortcut::CommandShiftZ => Some(Intent::Redo(now)),
        Shortcut::CommandZ => Some(Intent::Undo(now)),
    }
}

/// What the pressed keys ask for. While text is edited they ask for nothing; while the
/// tempo of a file is set, the transport's two keys belong to that file.
pub open spec fn keyboard(
    pressed: Pressed,
    editing_text: bool,
    tempo_dialog: bool,
    selection: Selection,
    now: u64,
) -> KeyboardOutcome {
    if editing_text {
        KeyboardOutcome {
            taken: None,
            preview: None,
            intent: None,
            zoom_out: false,
            zoom_in: false,
        }
    } else if tempo_dialog && (pressed.space || pressed.home) {
        KeyboardOutcome {
            taken: first_pressed(pressed),
            preview: Some(
                if pressed.space {
                    PreviewKey::Toggle
                } else {
                    PreviewKey::Stop
                },
            ),
            intent: None,
            zoom_out: false,
            zoom_in: false,
        }
    } else {
        KeyboardOutcome {
            taken: first_pressed(pressed),
            preview: None,
            intent: match first_pressed(pressed) {
                Some(key) => shortcut_intent(key, selection, now),
                None => None,
            },
            zoom_out: pressed.open_bracket,
            zoom_in: pressed.close_bracket,
        }
    }
}

fn first_key(pressed: Pressed) -> (key: Option<Shortcut>)
    ensures
        key == first_pressed(pressed),
{
    if pressed.space {
        Some(Shortcut::Space)
    } else if pressed.home {
        Some(Shortcut::Home)
    } else if pressed.backspace {
        Some(Shortcut::Backspace)
    } else if pressed.escape {
        Some(Shortcut::Escape)
    } else if pressed.enter {
        Some(Shortcut::Enter)
    } else if pressed.l {
        Some(Shortcut::L)
    } else if pressed.command_r {
        Some(Shortcut::CommandR)
    } else if pressed.command_shift_z {
        Some(Shortcut::CommandShiftZ)
    } else if pressed.command_z {
        Some(Shortcut::CommandZ)
    } else {
        None
    }
}

fn key_intent(key: Shortcut, selection: Selection, now: u64) -> (intent: Option<Intent>)
    ensures
        intent == shortcut_intent(key, selection, now),
{
    match key {
        Shortcut::Space => Some(Intent::TogglePlayback),
        Shortcut::Home => Some(Intent::Stop),
        Shortcut::Backspace => Some(backspace_intent(selection)),
        Shortcut::Escape => Some(Intent::ClearSelection),
        Shortcut::Enter => match selection {
            Selection::Clip { track, clip } => Some(Intent::EnterChild { track, clip }),
            _ => None,
        },
        Shortcut::L => Some(Intent::ToggleStructureLens),
        Shortcut::CommandR => Some(Intent::SimulateAgentChange(now)),
        Shortcut::CommandShiftZ => Some(Intent::Redo(now)),
        Shortcut::CommandZ => Some(Intent::Undo(now)),
    }
}

/// What the pressed keys ask for.
pub fn handle_keyboard(
    pressed: Pressed,
    editing_text: bool,
    tempo_dialog: bool,
    selection: Selection,
    now: u64,
) -> (outcome: KeyboardOutcome)
    ensures
        outcome == keyboard(pressed, editing_text, tempo_dialog, selection, now),
{
    if editing_text {
        return KeyboardOutcome {
            taken: None,
            preview: None,
            intent: None,
            zoom_out: false,
            zoom_in: false,
        };
    }
    let taken = first_key(pressed);
    if tempo_dialog && (pressed.space || pressed.home) {
        return KeyboardOutcome {
            taken,
            preview: Some(
                if pressed.space {
                    PreviewKey::Toggle
                } else {
                    PreviewKey::Stop
                },
            ),
            intent: None,
            zoom_out: false,
            zoom_in: false,
        };
    }
    let intent = match taken {
        Some(key) => key_intent(key, selection, now),
        None => None,
    };
    KeyboardOutcome {
        taken,
        preview: None,
        intent,
        zoom_out: pressed.open_bracket,
        zoom_in: pressed.close_bracket,
    }
}

/// Whatever is pressed, a key deletes only a clip that is selected, and only with the
/// backspace key.
pub proof fn only_backspace_deletes(
    pressed: Pressed,
    editing_text: bool,
    tempo_dialog: bool,
    selection: Selection,
    now: u64,
)
    ensures
        keyboard(pressed, editing_text, tempo_dialog, selection, now).intent matches Some(
            Intent::DeleteClip { track, clip },
        ) ==> pressed.backspace && !editing_text && selection == (Selection::Clip { track, clip }),
{
}

/// While text is edited, no key of the shell does anything.
pub proof fn typing_is_never_a_shortcut(
    pressed: Pressed,
    tempo_dialog: bool,
    selection: Selection,
    now: u64,
)
    ensures
        ({
            let outcome = keyboard(pressed, true, tempo_dialog, selection, now);
            &&& outcome.taken is None
            &&& outcome.preview is None
            &&& outcome.intent is None
            &&& !outcome.zoom_out
            &&& !outcome.zoom_in
        }),
{
}

/// Every shortcut does what it is for; the backspace key deletes the selected clip and goes back
/// where none is, and enter goes into it.
pub proof fn shortcuts_do_what_they_are_for(track: usize, clip: usize, selection: Selection, now: u64)
    ensures
        shortcut_intent(Shortcut::Space, selection, now) == Some(Intent::TogglePlayback),
        shortcut_intent(Shortcut::Home, selection, now) == Some(Intent::Stop),
        shortcut_intent(Shortcut::Escape, selection, now) == Some(Intent::ClearSelection),
        shortcut_intent(Shortcut::L, selection, now) == Some(Intent::ToggleStructureLens),
        shortcut_intent(Shortcut::CommandR, selection, now) == Some(
            Intent::SimulateAgentChange(now),
        ),
        shortcut_intent(Shortcut::CommandZ, selection, now) == Some(Intent::Undo(now)),
        shortcut_intent(Shortcut::CommandShiftZ, selection, now) == Some(Intent::Redo(now)),
        shortcut_intent(Shortcut::Backspace, Selection::Clip { track, clip }, now) == Some(
            Intent::DeleteClip { track, clip },
        ),
        shortcut_intent(Shortcut::Enter, Selection::Clip { track, clip }, now) == Some(
            Intent::EnterChild { track, clip },
        ),
        !(selection is Clip) ==> shortcut_intent(Shortcut::Backspace, selection, now) == Some(
            Intent::Back,
        ),
        !(selection is Clip) ==> shortcut_intent(Shortcut::Enter, selection, now) is None,
{
}

/// The key that is used is one that was pressed, and some key is used if any was; redo goes
/// before undo, which the same letter stands for.
pub proof fn used_keys_were_pressed(pressed: Pressed)
    ensures
        match first_pressed(pressed) {
            Some(Shortcut::Space) => pressed.space,
            Some(Shortcut::Home) => pressed.home && !pressed.space,
            Some(Shortcut::Backspace) => pressed.backspace,
            Some(Shortcut::Escape) => pressed.escape,
            Some(Shortcut::Enter) => pressed.enter,
            Some(Shortcut::L) => pressed.l,
            Some(Shortcut::CommandR) => pressed.command_r,
            Some(Shortcut::CommandShiftZ) => pressed.command_shift_z,
            Some(Shortcut::CommandZ) => pressed.command_z && !pressed.command_shift_z,
            None => !pressed.space && !pressed.home && !pressed.backspace && !pressed.escape
                && !pressed.enter && !pressed.l && !pressed.command_r && !pressed.command_shift_z
                && !pressed.command_z,
        },
{
}

/// While no text is typed the used key does its part and the brackets zoom; in the dialog for the
/// tempo of a file, space and home are for listening to the file instead.
pub proof fn keys_reach_what_they_are_for(
    pressed: Pressed,
    tempo_dialog: bool,
    selection: Selection,
    now: u64,
)
    ensures
        ({
            let outcome = keyboard(pressed, false, tempo_dialog, selection, now);
            let listening = tempo_dialog && (pressed.space || pressed.home);
            &&& outcome.taken == first_pressed(pressed)
            &&& listening && pressed.space ==> outcome.preview == Some(PreviewKey::Toggle)
            &&& listening && !pressed.space ==> outcome.preview == Some(PreviewKey::Stop)
            &&& listening ==> outcome.intent is None && !outcome.zoom_out && !outcome.zoom_in
            &&& !listening ==> outcome.preview is None
            &&& !listening ==> (first_pressed(pressed) matches Some(key) ==> outcome.intent
                == shortcut_intent(key, selection, now))
            &&& !listening && first_pressed(pressed) is None ==> outcome.intent is None
            &&& !listening ==> outcome.zoom_out == pressed.open_bracket && outcome.zoom_in
                == pressed.close_bracket
        }),
{
}

} // verus!
