//! The editor at the bottom of the shell: which one is shown, and what it offers.
use crate::intents::Selection;
use vstd::prelude::*;

verus! {

/// An editor.
#[derive(Clone, Copy, Debug, PartialEq, Eq, Structural)]
pub enum EditorKind {
    Overview,
    Waveform,
    PianoRoll,
    Sampler,
    Effect,
}

/// A change of the selected audio clip.
#[derive(Clone, Copy, Debug, PartialEq, Eq, Structural)]
pub enum AudioClipEdit {
    TrimStart,
    Chop,
    ToggleFadeIn,
    ToggleFadeOut,
    ToggleReverse,
}

/// The changes that are offered, in order: only while the selected clip is audio.
pub open spec fn offered_edits(audio_selected: bool) -> Seq<AudioClipEdit> {
    if audio_selected {
        seq![
            AudioClipEdit::TrimStart,
            AudioClipEdit::Chop,
            AudioClipEdit::ToggleFadeIn,
            AudioClipEdit::ToggleFadeOut,
            AudioClipEdit::ToggleReverse,
        ]
    } else {
        Seq::empty()
    }
}

/// The text of the button of a change.
pub open spec fn edit_name(edit: AudioClipEdit) -> Seq<char> {
    match edit {
        AudioClipEdit::TrimStart => "TRIM +"@,
        AudioClipEdit::Chop => "CHOP"@,
        AudioClipEdit::ToggleFadeIn => "FADE IN"@,
        AudioClipEdit::ToggleFadeOut => "FADE OUT"@,
        AudioClipEdit::ToggleReverse => "REVERSE"@,
    }
}

impl AudioClipEdit {
    /// The changes that are offered, in order. `audio_selected` tells whether a clip is
    /// selected and is audio.
    pub fn offered(audio_selected: bool) -> (edits: Vec<AudioClipEdit>)
        ensures
            edits@ == offered_edits(audio_selected),
    {
        let mut edits: Vec<AudioClipEdit> = Vec::new();
        if audio_selected {
            edits.push(AudioClipEdit::TrimStart);
            edits.push(AudioClipEdit::Chop);
            edits.push(AudioClipEdit::ToggleFadeIn);
            edits.push(AudioClipEdit::ToggleFadeOut);
            edits.push(AudioClipEdit::ToggleReverse);
        }
        assert(edits@ =~= offered_edits(audio_selected));
        edits
    }

    /// The text of the button of the change.
    pub fn label(self) -> (label: &'static str)
        ensures
            label@ == edit_name(self),
    {
        match self {
            AudioClipEdit::TrimStart => "TRIM +",
            AudioClipEdit::Chop => "CHOP",
            AudioClipEdit::ToggleFadeIn => "FADE IN",
            AudioClipEdit::ToggleFadeOut => "FADE OUT",
            AudioClipEdit::ToggleReverse => "REVERSE",
        }
    }
}

/// What the waveform editor shows.
#[derive(Clone, Copy, Debug, PartialEq, Eq, Structural)]
pub enum WaveformSubject {
    /// The asset at a place.
    Asset(usize),
    /// The selected clip.
    Clip,
    Nothing,
}

/// What the waveform editor shows, of so many assets.
pub open spec fn subject_of(selection: Selection, assets: nat, clip_selected: bool)
    -> WaveformSubject {
    match selection {
        Selection::Asset(index) => if index < assets {
            WaveformSubject::Asset(index)
        } else {
            WaveformSubject::Nothing
        },
        _ => if clip_selected {
            WaveformSubject::Clip
        } else {
            WaveformSubject::Nothing
        },
    }
}

/// What the waveform editor shows, of so many assets.
pub fn waveform_editor(selection: Selection, assets: usize, clip_selected: bool) -> (subject:
    WaveformSubject)
    ensures
        subject == subject_of(selection, assets as nat, clip_selected),
{
    match selection {
        Selection::Asset(index) => if index < assets {
            WaveformSubject::Asset(index)
        } else {
            WaveformSubject::Nothing
        },
        _ => if clip_selected {
            WaveformSubject::Clip
        } else {
            WaveformSubject::Nothing
        },
    }
}

/// What can be done with a waveform, in a line.
pub open spec fn subject_text(subject: WaveformSubject) -> Seq<char> {
    match subject {
        WaveformSubject::Asset(_) => "ASSET BPM · FIRST BEAT · SOURCE RANGE"@,
        WaveformSubject::Clip => "TRIM · CHOP · FADE · REVERSE"@,
        WaveformSubject::Nothing => "SOURCE"@,
    }
}

impl WaveformSubject {
    /// What can be done with the waveform, in a line.
    pub fn info(self) -> (text: &'static str)
        ensures
            text@ == subject_text(self),
    {
        match self {
            WaveformSubject::Asset(_) => "ASSET BPM · FIRST BEAT · SOURCE RANGE",
            WaveformSubject::Clip => "TRIM · CHOP · FADE · REVERSE",
            WaveformSubject::Nothing => "SOURCE",
        }
    }

    /// Where the first beat is marked, in thousandths of the waveform: only on an asset
    /// that has one.
    pub fn first_beat_mark(self, first_beat: Option<u64>, duration: u64) -> (mark: Option<u64>)
        ensures
            mark == match (self, first_beat) {
                (WaveformSubject::Asset(_), Some(beat)) => if duration == 0 {
                    None
                } else if beat >= duration {
                    Some(1_000u64)
                } else {
                    Some((beat as int * 1_000 / (duration as int)) as u64)
                },
                _ => None,
            },
    {
        match (self, first_beat) {
            (WaveformSubject::Asset(_), Some(beat)) => {
                if duration == 0 {
                    None
                } else if beat >= duration {
                    Some(1_000)
                } else {
                    let mark: u128 = beat as u128 * 1_000 / duration as u128;
                    Some(mark as u64)
                }
            },
            _ => None,
        }
    }
}

/// The waveform shown is that of the selected file where there is one, else of the selected clip;
/// all five edits are offered for a recording and none otherwise.
pub proof fn waveforms_show_the_selection(index: usize, assets: nat, clip_selected: bool)
    ensures
        index < assets ==> subject_of(Selection::Asset(index), assets, clip_selected)
            == WaveformSubject::Asset(index),
        index >= assets ==> subject_of(Selection::Asset(index), assets, clip_selected) is Nothing,
        offered_edits(true).len() == 5,
        offered_edits(false).len() == 0,
        forall|edit: AudioClipEdit| #[trigger] offered_edits(true).contains(edit),
{
    assert forall|edit: AudioClipEdit| #[trigger] offered_edits(true).contains(edit) by {
        let offered = offered_edits(true);
        match edit {
            AudioClipEdit::TrimStart => assert(offered[0] == edit),
            AudioClipEdit::Chop => assert(offered[1] == edit),
            AudioClipEdit::ToggleFadeIn => assert(offered[2] == edit),
            AudioClipEdit::ToggleFadeOut => assert(offered[3] == edit),
            AudioClipEdit::ToggleReverse => assert(offered[4] == edit),
        }
    }
}

} // verus!
