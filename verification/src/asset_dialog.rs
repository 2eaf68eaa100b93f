//! What is done with assets: putting them onto the arrangement, and the dialogs that
//! rename them, set their tempo and take them apart.
//!
//! Positions are counted in parts of a beat, tempos in thousandths of a beat per minute,
//! times in nanoseconds.
use crate::asset_preview::AssetPreviewStatus;
use crate::assets::AssetMenuAction;
use crate::clock::{format_preview_time, preview_time_text};
use crate::intents::Intent;
use crate::names::{ending, last_part, new_name, renamed, split_name, stem};
use crate::persist::MediaRegion;
use crate::tempo::{
    candidate, decided, drop_tempo_decision, format_tempo, media_regions, tempo_media_regions,
    tempo_text, BpmDetectionState, DetectionNews, DropTempoDecision, Tempo, TempoAnalysis,
    TempoSectionDraft, TempoSync,
};
use crate::text::{decimal, joined, push_decimal, same_text};
use vstd::prelude::*;

verus! {

/// How many stems a file can be taken apart into.
pub const STEMS: usize = 8;

/// An audio asset, as far as this module looks at it.
#[derive(Debug)]
pub struct AssetInfo {
    pub id: u128,
    pub name: String,
    /// Where its audio is, if there is any yet.
    pub media_path: Option<String>,
    pub content_hash: Option<String>,
    pub tempo: Option<u32>,
    pub first_beat: Option<u64>,
    pub sample_rate: u32,
    pub frames: u64,
    pub duration: u64,
}

/// A file that waits for the user's word on its tempo.
#[derive(Debug)]
pub struct PendingAssetDrop {
    pub asset_id: u128,
    pub asset_name: String,
    pub beat: i64,
    pub track: Option<usize>,
    pub asset_tempo: u32,
    pub project_tempo: u32,
}

/// A dialog about an asset.
#[derive(Debug)]
pub enum AssetDialog {
    Rename { index: usize, value: String, extension: String },
    Bpm { index: usize, value: String, detection: Option<BpmDetectionState> },
    StemSplitter { asset_id: u128, selected: Vec<bool>, denoise: bool, dereverb_vocals: bool },
}

/// What the user has open about assets.
#[derive(Debug)]
pub struct AssetDesk {
    pub dialog: Option<AssetDialog>,
    pub pending_drop: Option<PendingAssetDrop>,
}

/// What is to be done after a line of a menu was chosen.
#[derive(Debug)]
pub enum AssetRequest {
    Nothing,
    /// Let the user pick a file to import.
    PickFile,
    Apply(Intent),
    /// Listen to this file while its tempo is set.
    BeginPreview(String),
    Transcribe {
        asset_id: u128,
        media_path: String,
        content_hash: Option<String>,
        name: String,
        tempo: u32,
    },
    RemoveAsset(usize),
    /// Show the file where it lies; the project knows where its media is.
    Reveal { media_path: String, in_project: bool },
}

/// Whether an optional text has these characters.
pub open spec fn reads(text: Option<String>, other: Option<String>) -> bool {
    match (text, other) {
        (Some(text), Some(other)) => text@ == other@,
        (None, None) => true,
        _ => false,
    }
}

fn copied(text: &String) -> (copy: String)
    ensures
        copy@ == text@,
{
    String::from_str(text.as_str())
}

fn copied_option(text: &Option<String>) -> (copy: Option<String>)
    ensures
        reads(copy, *text),
{
    match text {
        Some(text) => Some(copied(text)),
        None => None,
    }
}

/// The place of the first asset with an id, or the number of assets.
pub open spec fn place_of(assets: Seq<AssetInfo>, id: u128) -> int
    decreases assets.len(),
{
    if assets.len() == 0 {
        0
    } else if assets[0].id == id {
        0
    } else {
        1 + place_of(assets.skip(1), id)
    }
}

fn find_asset(assets: &Vec<AssetInfo>, id: u128) -> (place: usize)
    ensures
        place == place_of(assets@, id),
        place <= assets@.len(),
{
    let mut place: usize = 0;
    assert(assets@.skip(0) =~= assets@);
    while place < assets.len()
        invariant
            place <= assets.len(),
            place_of(assets@, id) == place + place_of(assets@.skip(place as int), id),
        decreases assets.len() - place,
    {
        let ghost rest = assets@.skip(place as int);
        if assets[place].id == id {
            return place;
        }
        assert(rest.skip(1) =~= assets@.skip(place + 1));
        place += 1;
    }
    place
}

/// A clip for an asset that follows the tempo in a way.
pub open spec fn asset_clip(
    asset_id: u128,
    beat: i64,
    track: Option<usize>,
    tempo_sync: TempoSync,
) -> Intent {
    Intent::AddAssetClip { asset_id, beat, track, tempo_sync: Some(tempo_sync) }
}

/// The tempo of an asset, if it is there and has one.
pub open spec fn tempo_of(assets: Seq<AssetInfo>, id: u128) -> Option<u32> {
    let place = place_of(assets, id);
    if 0 <= place < assets.len() {
        assets[place].tempo
    } else {
        None
    }
}

/// The name of an asset, or what stands for it.
pub open spec fn name_of(assets: Seq<AssetInfo>, id: u128) -> Seq<char> {
    let place = place_of(assets, id);
    if 0 <= place < assets.len() {
        assets[place].name@
    } else {
        "Audio asset"@
    }
}

/// Whether a dropped file waits with these values.
pub open spec fn waits(
    pending: Option<PendingAssetDrop>,
    assets: Seq<AssetInfo>,
    asset_id: u128,
    beat: i64,
    track: Option<usize>,
    asset_tempo: u32,
    project_tempo: u32,
) -> bool {
    pending matches Some(drop) && {
        &&& drop.asset_id == asset_id
        &&& drop.asset_name@ == name_of(assets, asset_id)
        &&& drop.beat == beat
        &&& drop.track == track
        &&& drop.asset_tempo == asset_tempo
        &&& drop.project_tempo == project_tempo
    }
}

/// A dialog for a name that is shown in its two parts.
pub open spec fn rename_dialog(dialog: Option<AssetDialog>, index: usize, name: Seq<char>) -> bool {
    match dialog {
        Some(AssetDialog::Rename { index: place, value, extension }) => {
            &&& place == index
            &&& match last_part(name) {
                Some(part) => value@ == stem(part) && extension@ == ending(part),
                None => value@ == name && extension@.len() == 0,
            }
        },
        _ => false,
    }
}

/// A dialog for a tempo that shows the tempo there is.
pub open spec fn tempo_dialog(dialog: Option<AssetDialog>, index: usize, tempo: Option<u32>) -> bool {
    match dialog {
        Some(AssetDialog::Bpm { index: place, value, detection }) => {
            &&& place == index
            &&& detection is None
            &&& value@ == match tempo {
                Some(tempo) => tempo_text(tempo as nat, 2),
                None => Seq::empty(),
            }
        },
        _ => false,
    }
}

/// A dialog for stems with everything chosen.
pub open spec fn stem_dialog(dialog: Option<AssetDialog>, asset_id: u128) -> bool {
    match dialog {
        Some(AssetDialog::StemSplitter { asset_id: id, selected, denoise, dereverb_vocals }) => {
            &&& id == asset_id
            &&& selected@ == Seq::new(STEMS as nat, |i: int| true)
            &&& denoise
            &&& dereverb_vocals
        },
        _ => false,
    }
}

/// What the user does in a dialog, beside editing its fields.
#[derive(Clone, Copy, Debug)]
pub struct DialogInput {
    /// The enter key ended the editing of a field.
    pub enter: bool,
    /// The button at the end was pressed.
    pub primary: bool,
    pub cancel: bool,
    pub detect: bool,
    /// The tempo in the field, if it reads as a number.
    pub typed: Option<i64>,
}

/// What is to be done after a dialog.
#[derive(Debug)]
pub enum DialogCommand {
    Nothing,
    Rename { index: usize, name: String },
    SetTempo { index: usize, tempo: i64, first_beat: u64 },
    SplitStems {
        asset_id: u128,
        media_path: String,
        content_hash: Option<String>,
        name: String,
        stems: Vec<usize>,
        denoise: bool,
        dereverb_vocals: bool,
    },
    /// Cut the file; then tell [`AssetDesk::regions_submitted`] whether that was taken.
    SubmitRegions { asset_id: u128, regions: Vec<MediaRegion> },
    /// Look for the tempo of this file.
    StartDetection { media_path: String },
}

/// The places of the chosen stems.
pub open spec fn chosen_stems(selected: Seq<bool>) -> Seq<usize>
    decreases selected.len(),
{
    if selected.len() == 0 {
        Seq::empty()
    } else {
        let before = chosen_stems(selected.drop_last());
        if selected.last() {
            before.push((selected.len() - 1) as usize)
        } else {
            before
        }
    }
}

fn collect_stems(selected: &Vec<bool>) -> (stems: Vec<usize>)
    ensures
        stems@ == chosen_stems(selected@),
        stems@.len() <= selected@.len(),
{
    let mut stems: Vec<usize> = Vec::new();
    let mut index: usize = 0;
    assert(selected@.take(0) =~= Seq::empty());
    while index < selected.len()
        invariant
            index <= selected.len(),
            stems@ == chosen_stems(selected@.take(index as int)),
            stems@.len() <= index,
        decreases selected.len() - index,
    {
        assert(selected@.take(index + 1).drop_last() =~= selected@.take(index as int));
        if selected[index] {
            stems.push(index);
        }
        index += 1;
    }
    assert(selected@.take(index as int) =~= selected@);
    stems
}

/// The file is divided into sections, which become files of their own.
pub open spec fn cuts_sections(dialog: AssetDialog) -> bool {
    dialog matches AssetDialog::Bpm { index, value, detection: Some(state) } && state.in_sections()
}

/// The button at the end can be used.
pub open spec fn primary_enabled(dialog: AssetDialog, connected: bool) -> bool {
    match dialog {
        AssetDialog::Rename { .. } => true,
        AssetDialog::Bpm { .. } => !cuts_sections(dialog) || connected,
        AssetDialog::StemSplitter { selected, .. } => connected && chosen_stems(selected@).len()
            > 0,
    }
}

/// The text of the button at the end.
pub open spec fn primary_text(dialog: AssetDialog) -> Seq<char> {
    match dialog {
        AssetDialog::StemSplitter { selected, .. } => {
            let count = chosen_stems(selected@).len();
            "SPLIT INTO "@ + decimal(count) + " STEM"@ + if count == 1 {
                ""@
            } else {
                "S"@
            }
        },
        _ => if cuts_sections(dialog) {
            "CREATE ASSETS FROM DETECTED SECTIONS"@
        } else {
            "APPLY"@
        },
    }
}

/// The title of a dialog.
pub open spec fn dialog_title(dialog: AssetDialog) -> Seq<char> {
    match dialog {
        AssetDialog::Rename { .. } => "RENAME ASSET"@,
        AssetDialog::Bpm { .. } => "ASSET TEMPO"@,
        AssetDialog::StemSplitter { .. } => "X-LANCE STEM SPLITTER"@,
    }
}

/// The user confirms: with the button, or by ending the editing of the only field.
pub open spec fn confirmed(dialog: AssetDialog, input: DialogInput, connected: bool) -> bool {
    match dialog {
        AssetDialog::Rename { .. } => input.enter || input.primary,
        AssetDialog::Bpm { .. } => !cuts_sections(dialog) && (input.enter || input.primary),
        AssetDialog::StemSplitter { .. } => input.primary && primary_enabled(dialog, connected),
    }
}

/// The user wants the sections as files.
pub open spec fn wants_cut(dialog: AssetDialog, input: DialogInput, connected: bool) -> bool {
    cuts_sections(dialog) && input.primary && connected
}

/// What a confirmed dialog asks for.
pub open spec fn confirmation(
    dialog: AssetDialog,
    typed: Option<i64>,
    assets: Seq<AssetInfo>,
    connected: bool,
    command: DialogCommand,
) -> bool {
    match dialog {
        AssetDialog::Rename { index, value, extension } => command matches DialogCommand::Rename {
            index: place,
            name,
        } && place == index && name@ == renamed(value@, extension@),
        AssetDialog::Bpm { index, value, detection } => match typed {
            Some(tempo) => if index < assets.len() {
                command == (DialogCommand::SetTempo {
                    index,
                    tempo,
                    first_beat: match assets[index as int].first_beat {
                        Some(beat) => beat,
                        None => 0,
                    },
                })
            } else {
                command is Nothing
            },
            None => command is Nothing,
        },
        AssetDialog::StemSplitter { asset_id, selected, denoise, dereverb_vocals } => {
            let place = place_of(assets, asset_id);
            if 0 <= place < assets.len() && assets[place].media_path is Some && connected {
                match command {
                    DialogCommand::SplitStems {
                        asset_id: id,
                        media_path,
                        content_hash,
                        name,
                        stems,
                        denoise: clean,
                        dereverb_vocals: dry,
                    } => {
                        &&& id == asset_id
                        &&& media_path@ == (assets[place].media_path->0)@
                        &&& reads(content_hash, assets[place].content_hash)
                        &&& name@ == assets[place].name@
                        &&& stems@ == chosen_stems(selected@)
                        &&& clean == denoise
                        &&& dry == dereverb_vocals
                    },
                    _ => false,
                }
            } else {
                command is Nothing
            }
        },
    }
}

/// The files that a dialog about sections asks for, if it can.
pub open spec fn cut_regions(dialog: AssetDialog, assets: Seq<AssetInfo>) -> Option<
    Seq<MediaRegion>,
> {
    match dialog {
        AssetDialog::Bpm { index, value, detection: Some(state) } => if index < assets.len() {
            media_regions(
                state.sections@,
                assets[index as int].sample_rate as int,
                assets[index as int].frames as int,
            )
        } else {
            None
        },
        _ => None,
    }
}

/// A dialog about a tempo whose detection has just been started, or cannot be.
pub open spec fn detecting(
    before: AssetDialog,
    after: AssetDialog,
    assets: Seq<AssetInfo>,
    command: DialogCommand,
) -> bool {
    match before {
        AssetDialog::Bpm { index, value, detection } => match after {
            AssetDialog::Bpm { index: place, value: text, detection: state } => {
                &&& place == index
                &&& text == value
                &&& if index < assets.len() && assets[index as int].media_path is Some {
                    &&& state matches Some(state) && state.result is None && !state.applied
                        && state.selected == 0 && state.sections@.len() == 0 && state.duration
                        == assets[index as int].duration
                    &&& command matches DialogCommand::StartDetection { media_path } && media_path@
                        == (assets[index as int].media_path->0)@
                } else {
                    &&& state is None
                    &&& command is Nothing
                }
            },
            _ => false,
        },
        _ => after == before && command is Nothing,
    }
}

/// The tempo of a candidate, where the answer is a stable tempo that has it.
pub open spec fn chosen_tempo(state: BpmDetectionState, choice: usize) -> Option<Tempo> {
    match state.result {
        Some(Ok(TempoAnalysis::Stable { start, end, detection })) => candidate(
            detection,
            choice as int,
        ),
        _ => None,
    }
}

/// What stands below the field of a new name.
pub fn extension_label(extension: &str) -> (text: String)
    ensures
        text@ == (if extension@.len() == 0 {
            "No extension"@
        } else {
            "Extension preserved: ."@ + extension@
        }),
{
    if same_text(extension, "") {
        assert(extension@ == ""@);
        proof {
            reveal_strlit("");
        }
        String::from_str("No extension")
    } else {
        proof {
            reveal_strlit("");
            if extension@.len() == 0 {
                assert(extension@ =~= ""@);
            }
        }
        joined("Extension preserved: .", extension)
    }
}

/// What stands beside the buttons of the preview.
pub open spec fn preview_text(status: Option<AssetPreviewStatus>) -> Seq<char> {
    match status {
        None => "PREVIEW UNAVAILABLE"@,
        Some(status) => if status.loading {
            "LOADING AUDIO…"@
        } else {
            match status.error {
                Some(error) => "PREVIEW ERROR · "@ + error@,
                None => preview_time_text(status.position as nat) + " / "@ + preview_time_text(
                    status.duration as nat,
                ),
            }
        },
    }
}

/// What stands beside the buttons of the preview.
pub fn preview_line(status: &Option<AssetPreviewStatus>) -> (text: String)
    ensures
        text@ == preview_text(*status),
{
    match status {
        None => String::from_str("PREVIEW UNAVAILABLE"),
        Some(status) => if status.loading {
            String::from_str("LOADING AUDIO…")
        } else {
            match &status.error {
                Some(error) => joined("PREVIEW ERROR · ", error.as_str()),
                None => {
                    let mut text = format_preview_time(status.position);
                    text.append(" / ");
                    text.append(format_preview_time(status.duration).as_str());
                    text
                },
            }
        },
    }
}

/// The button that starts and stops the preview, and whether it can be used.
pub fn preview_button(status: &Option<AssetPreviewStatus>) -> (button: (&'static str, bool))
    ensures
        button.0@ == (if status is Some && status->0.playing {
            "Ⅱ PAUSE"@
        } else {
            "▶ PLAY"@
        }),
        button.1 == (status is Some && !status->0.loading),
{
    match status {
        Some(status) => (
            if status.playing {
                "Ⅱ PAUSE"
            } else {
                "▶ PLAY"
            },
            !status.loading,
        ),
        None => ("▶ PLAY", false),
    }
}

/// What one look at a dialog leaves open, and what it asks for.
pub open spec fn dialog_step(
    before: AssetDialog,
    after: Option<AssetDialog>,
    input: DialogInput,
    assets: Seq<AssetInfo>,
    connected: bool,
    command: DialogCommand,
) -> bool {
    if wants_cut(before, input, connected) && !input.cancel {
        &&& after == Some(before)
        &&& match cut_regions(before, assets) {
            Some(wanted) => command matches DialogCommand::SubmitRegions { asset_id, regions }
                && asset_id == assets[before->Bpm_index as int].id && regions@ == wanted,
            None => command is Nothing,
        }
    } else if confirmed(before, input, connected) && !input.cancel {
        &&& after is None
        &&& confirmation(before, input.typed, assets, connected, command)
    } else if input.detect {
        after matches Some(after) && detecting(before, after, assets, command)
    } else if input.cancel {
        after is None && command is Nothing
    } else {
        after == Some(before) && command is Nothing
    }
}

impl AssetDialog {
    /// The title of the dialog.
    pub fn title(&self) -> (title: &'static str)
        ensures
            title@ == dialog_title(*self),
    {
        match self {
            AssetDialog::Rename { .. } => "RENAME ASSET",
            AssetDialog::Bpm { .. } => "ASSET TEMPO",
            AssetDialog::StemSplitter { .. } => "X-LANCE STEM SPLITTER",
        }
    }

    /// Whether the file is divided into sections.
    pub fn in_sections(&self) -> (yes: bool)
        ensures
            yes == cuts_sections(*self),
    {
        match self {
            AssetDialog::Bpm { index: _, value: _, detection: Some(state) } => state.has_sections(),
            _ => false,
        }
    }

    /// The text of the button at the end, and whether it can be used.
    pub fn primary(&self, connected: bool) -> (button: (String, bool))
        ensures
            button.0@ == primary_text(*self),
            button.1 == primary_enabled(*self, connected),
    {
        match self {
            AssetDialog::StemSplitter { asset_id: _, selected, denoise: _, dereverb_vocals: _ } => {
                let stems = collect_stems(selected);
                let mut text = String::from_str("SPLIT INTO ");
                push_decimal(&mut text, stems.len() as u64);
                text.append(" STEM");
                if stems.len() != 1 {
                    text.append("S");
                } else {
                    text.append("");
                }
                assert(text@ =~= primary_text(*self));
                (text, connected && stems.len() > 0)
            },
            _ => if self.in_sections() {
                (String::from_str("CREATE ASSETS FROM DETECTED SECTIONS"), connected)
            } else {
                (String::from_str("APPLY"), true)
            },
        }
    }

    /// Whether the vocals can be freed of their room: only where they are wanted.
    pub fn offers_dereverb(&self) -> (offered: bool)
        ensures
            offered == match *self {
                AssetDialog::StemSplitter { selected, .. } => selected@.len() > 0 && selected@[0],
                _ => false,
            },
    {
        match self {
            AssetDialog::StemSplitter { asset_id: _, selected, denoise: _, dereverb_vocals: _ } =>
                selected.len() > 0 && selected[0],
            _ => false,
        }
    }

    fn confirm(
        self,
        input: DialogInput,
        assets: &Vec<AssetInfo>,
        connected: bool,
    ) -> (command: DialogCommand)
        ensures
            confirmation(self, input.typed, assets@, connected, command),
    {
        match self {
            AssetDialog::Rename { index, value, extension } => DialogCommand::Rename {
                index,
                name: new_name(value.as_str(), extension.as_str()),
            },
            AssetDialog::Bpm { index, value: _, detection: _ } => match input.typed {
                Some(tempo) => if index < assets.len() {
                    let first_beat: u64 = match assets[index].first_beat {
                        Some(beat) => beat,
                        None => 0,
                    };
                    DialogCommand::SetTempo { index, tempo, first_beat }
                } else {
                    DialogCommand::Nothing
                },
                None => DialogCommand::Nothing,
            },
            AssetDialog::StemSplitter { asset_id, selected, denoise, dereverb_vocals } => {
                let place: usize = find_asset(assets, asset_id);
                if place >= assets.len() || !connected {
                    return DialogCommand::Nothing;
                }
                proof {
                    lemma_place(assets@, asset_id);
                }
                match &assets[place].media_path {
                    None => DialogCommand::Nothing,
                    Some(path) => DialogCommand::SplitStems {
                        asset_id,
                        media_path: copied(path),
                        content_hash: copied_option(&assets[place].content_hash),
                        name: copied(&assets[place].name),
                        stems: collect_stems(&selected),
                        denoise,
                        dereverb_vocals,
                    },
                }
            },
        }
    }

    fn is_confirmed(&self, input: DialogInput, connected: bool) -> (yes: bool)
        ensures
            yes == confirmed(*self, input, connected),
    {
        match self {
            AssetDialog::Rename { .. } => input.enter || input.primary,
            AssetDialog::Bpm { .. } => !self.in_sections() && (input.enter || input.primary),
            AssetDialog::StemSplitter { asset_id: _, selected, denoise: _, dereverb_vocals: _ } => {
                let stems = collect_stems(selected);
                input.primary && connected && stems.len() > 0
            },
        }
    }

    fn regions(&self, assets: &Vec<AssetInfo>) -> (regions: Option<(u128, Vec<MediaRegion>)>)
        ensures
            match regions {
                Some((asset_id, regions)) => self is Bpm && self->Bpm_index < assets@.len()
                    && asset_id == assets@[self->Bpm_index as int].id && cut_regions(
                    *self,
                    assets@,
                ) == Some(regions@),
                None => cut_regions(*self, assets@) is None,
            },
    {
        match self {
            AssetDialog::Bpm { index, value: _, detection: Some(state) } => {
                if *index < assets.len() {
                    let asset = &assets[*index];
                    match tempo_media_regions(asset.sample_rate, asset.frames, &state.sections) {
                        Some(regions) => Some((asset.id, regions)),
                        None => None,
                    }
                } else {
                    None
                }
            },
            _ => None,
        }
    }
}

proof fn lemma_place(assets: Seq<AssetInfo>, id: u128)
    ensures
        0 <= place_of(assets, id) <= assets.len(),
        place_of(assets, id) < assets.len() ==> assets[place_of(assets, id)].id == id,
    decreases assets.len(),
{
    if assets.len() > 0 && assets[0].id != id {
        lemma_place(assets.skip(1), id);
    }
}

impl AssetDesk {
    /// Nothing is open.
    pub fn new() -> (desk: Self)
        ensures
            desk.dialog is None,
            desk.pending_drop is None,
    {
        AssetDesk { dialog: None, pending_drop: None }
    }

    /// Puts an asset onto the arrangement, or asks about its tempo first.
    pub fn request_asset_drop(
        &mut self,
        assets: &Vec<AssetInfo>,
        asset_id: u128,
        beat: i64,
        track: Option<usize>,
        project_tempo: u32,
    ) -> (intent: Option<Intent>)
        ensures
            final(self).dialog == old(self).dialog,
            match decided(tempo_of(assets@, asset_id), project_tempo) {
                DropTempoDecision::Prompt(tempo) => intent is None && waits(
                    final(self).pending_drop,
                    assets@,
                    asset_id,
                    beat,
                    track,
                    tempo,
                    project_tempo,
                ),
                DropTempoDecision::Apply(sync) => intent == Some(
                    asset_clip(asset_id, beat, track, sync),
                ) && final(self).pending_drop == old(self).pending_drop,
            },
    {
        let place: usize = find_asset(assets, asset_id);
        let found = place < assets.len();
        let tempo: Option<u32> = if found {
            assets[place].tempo
        } else {
            None
        };
        match drop_tempo_decision(tempo, project_tempo) {
            DropTempoDecision::Prompt(asset_tempo) => {
                let asset_name = if found {
                    copied(&assets[place].name)
                } else {
                    String::from_str("Audio asset")
                };
                self.pending_drop = Some(
                    PendingAssetDrop {
                        asset_id,
                        asset_name,
                        beat,
                        track,
                        asset_tempo,
                        project_tempo,
                    },
                );
                None
            },
            DropTempoDecision::Apply(sync) => Some(
                Intent::AddAssetClip { asset_id, beat, track, tempo_sync: Some(sync) },
            ),
        }
    }

    /// Performs what the arrangement asks for; a clip whose tempo is not settled goes the
    /// way of a dropped file.
    pub fn handle_timeline_action(
        &mut self,
        action: Intent,
        assets: &Vec<AssetInfo>,
        project_tempo: u32,
    ) -> (intent: Option<Intent>)
        ensures
            final(self).dialog == old(self).dialog,
            match action {
                Intent::AddAssetClip { asset_id, beat, track, tempo_sync: None } => match decided(
                    tempo_of(assets@, asset_id),
                    project_tempo,
                ) {
                    DropTempoDecision::Prompt(tempo) => intent is None && waits(
                        final(self).pending_drop,
                        assets@,
                        asset_id,
                        beat,
                        track,
                        tempo,
                        project_tempo,
                    ),
                    DropTempoDecision::Apply(sync) => intent == Some(
                        asset_clip(asset_id, beat, track, sync),
                    ) && final(self).pending_drop == old(self).pending_drop,
                },
                _ => intent == Some(action) && final(self).pending_drop == old(self).pending_drop,
            },
    {
        match action {
            Intent::AddAssetClip { asset_id, beat, track, tempo_sync: None } => {
                self.request_asset_drop(assets, asset_id, beat, track, project_tempo)
            },
            _ => Some(action),
        }
    }

    /// The user's word on a waiting file. Without one it waits on; cancelled, it is gone.
    pub fn asset_drop_dialog(&mut self, choice: Option<TempoSync>, cancelled: bool) -> (intent:
        Option<Intent>)
        ensures
            final(self).dialog == old(self).dialog,
            match (old(self).pending_drop, choice) {
                (None, _) => intent is None && final(self).pending_drop is None,
                (Some(drop), Some(sync)) => intent == Some(
                    asset_clip(drop.asset_id, drop.beat, drop.track, sync),
                ) && final(self).pending_drop is None,
                (Some(_), None) => intent is None && final(self).pending_drop == if cancelled {
                    None
                } else {
                    old(self).pending_drop
                },
            },
    {
        let pending = self.pending_drop.take();
        match pending {
            None => None,
            Some(drop) => match choice {
                Some(sync) => Some(
                    Intent::AddAssetClip {
                        asset_id: drop.asset_id,
                        beat: drop.beat,
                        track: drop.track,
                        tempo_sync: Some(sync),
                    },
                ),
                None => {
                    if !cancelled {
                        self.pending_drop = Some(drop);
                    }
                    None
                },
            },
        }
    }

    /// Performs a line of a menu. `connected` says that the project lies on disk.
    pub fn handle_asset_action(
        &mut self,
        action: AssetMenuAction,
        assets: &Vec<AssetInfo>,
        midi_assets: &Vec<u128>,
        playhead: i64,
        project_tempo: u32,
        connected: bool,
    ) -> (request: AssetRequest)
        ensures
            !(action is AddToTimeline) ==> final(self).pending_drop == old(self).pending_drop,
            match action {
                AssetMenuAction::Import => {
                    &&& request == if connected {
                        AssetRequest::PickFile
                    } else {
                        AssetRequest::Nothing
                    }
                    &&& final(self).dialog == old(self).dialog
                },
                AssetMenuAction::AddToTimeline(index) => {
                    &&& final(self).dialog == old(self).dialog
                    &&& if index < assets@.len() {
                        match decided(
                            tempo_of(assets@, assets@[index as int].id),
                            project_tempo,
                        ) {
                            DropTempoDecision::Prompt(tempo) => request is Nothing && waits(
                                final(self).pending_drop,
                                assets@,
                                assets@[index as int].id,
                                playhead,
                                None,
                                tempo,
                                project_tempo,
                            ),
                            DropTempoDecision::Apply(sync) => request == AssetRequest::Apply(
                                asset_clip(assets@[index as int].id, playhead, None, sync),
                            ) && final(self).pending_drop == old(self).pending_drop,
                        }
                    } else {
                        request is Nothing && final(self).pending_drop == old(self).pending_drop
                    }
                },
                AssetMenuAction::AddMidiToTimeline(index) => {
                    &&& final(self).dialog == old(self).dialog
                    &&& request == if index < midi_assets@.len() {
                        AssetRequest::Apply(
                            Intent::AddEventDataClip {
                                event_data_id: midi_assets@[index as int],
                                beat: playhead,
                                track: None,
                            },
                        )
                    } else {
                        AssetRequest::Nothing
                    }
                },
                AssetMenuAction::Rename(index) => {
                    &&& request is Nothing
                    &&& if index < assets@.len() {
                        rename_dialog(final(self).dialog, index, assets@[index as int].name@)
                    } else {
                        final(self).dialog == old(self).dialog
                    }
                },
                AssetMenuAction::SetBpm(index) => if index < assets@.len() {
                    &&& tempo_dialog(final(self).dialog, index, assets@[index as int].tempo)
                    &&& match assets@[index as int].media_path {
                        Some(path) => if connected {
                            request matches AssetRequest::BeginPreview(shown) && shown@ == path@
                        } else {
                            request is Nothing
                        },
                        None => request is Nothing,
                    }
                } else {
                    request is Nothing && final(self).dialog == old(self).dialog
                },
                AssetMenuAction::ConvertToMidi(index) => {
                    &&& final(self).dialog == old(self).dialog
                    &&& if index < assets@.len() && assets@[index as int].media_path is Some
                        && connected {
                        match request {
                            AssetRequest::Transcribe {
                                asset_id,
                                media_path,
                                content_hash,
                                name,
                                tempo,
                            } => {
                                &&& asset_id == assets@[index as int].id
                                &&& media_path@ == (assets@[index as int].media_path->0)@
                                &&& reads(content_hash, assets@[index as int].content_hash)
                                &&& name@ == assets@[index as int].name@
                                &&& tempo == match assets@[index as int].tempo {
                                    Some(own) => own,
                                    None => project_tempo,
                                }
                            },
                            _ => false,
                        }
                    } else {
                        request is Nothing
                    }
                },
                AssetMenuAction::StemSplitter(index) => {
                    &&& request is Nothing
                    &&& if index < assets@.len() && assets@[index as int].media_path is Some {
                        stem_dialog(final(self).dialog, assets@[index as int].id)
                    } else {
                        final(self).dialog == old(self).dialog
                    }
                },
                AssetMenuAction::Delete(index) => request == AssetRequest::RemoveAsset(index)
                    && final(self).dialog == old(self).dialog,
                AssetMenuAction::Reveal(index) => {
                    &&& final(self).dialog == old(self).dialog
                    &&& if index < assets@.len() && assets@[index as int].media_path is Some {
                        request matches AssetRequest::Reveal { media_path, in_project }
                            && media_path@ == (assets@[index as int].media_path->0)@ && in_project
                            == connected
                    } else {
                        request is Nothing
                    }
                },
            },
    {
        match action {
            AssetMenuAction::Import => if connected {
                AssetRequest::PickFile
            } else {
                AssetRequest::Nothing
            },
            AssetMenuAction::AddToTimeline(index) => {
                if index < assets.len() {
                    let intent = self.request_asset_drop(
                        assets,
                        assets[index].id,
                        playhead,
                        None,
                        project_tempo,
                    );
                    match intent {
                        Some(intent) => AssetRequest::Apply(intent),
                        None => AssetRequest::Nothing,
                    }
                } else {
                    AssetRequest::Nothing
                }
            },
            AssetMenuAction::AddMidiToTimeline(index) => {
                if index < midi_assets.len() {
                    AssetRequest::Apply(
                        Intent::AddEventDataClip {
                            event_data_id: midi_assets[index],
                            beat: playhead,
                            track: None,
                        },
                    )
                } else {
                    AssetRequest::Nothing
                }
            },
            AssetMenuAction::Rename(index) => {
                if index < assets.len() {
                    let parts = split_name(assets[index].name.as_str());
                    self.dialog = Some(
                        AssetDialog::Rename {
                            index,
                            value: parts.stem,
                            extension: parts.extension,
                        },
                    );
                }
                AssetRequest::Nothing
            },
            AssetMenuAction::SetBpm(index) => {
                if index >= assets.len() {
                    return AssetRequest::Nothing;
                }
                let value = match assets[index].tempo {
                    Some(tempo) => format_tempo(tempo, 2),
                    None => String::new(),
                };
                self.dialog = Some(AssetDialog::Bpm { index, value, detection: None });
                match &assets[index].media_path {
                    Some(path) => if connected {
                        AssetRequest::BeginPreview(copied(path))
                    } else {
                        AssetRequest::Nothing
                    },
                    None => AssetRequest::Nothing,
                }
            },
            AssetMenuAction::ConvertToMidi(index) => {
                if index >= assets.len() || !connected {
                    return AssetRequest::Nothing;
                }
                let asset = &assets[index];
                match &asset.media_path {
                    Some(path) => AssetRequest::Transcribe {
                        asset_id: asset.id,
                        media_path: copied(path),
                        content_hash: copied_option(&asset.content_hash),
                        name: copied(&asset.name),
                        tempo: match asset.tempo {
                            Some(own) => own,
                            None => project_tempo,
                        },
                    },
                    None => AssetRequest::Nothing,
                }
            },
            AssetMenuAction::StemSplitter(index) => {
                if index < assets.len() && assets[index].media_path.is_some() {
                    self.open_stem_splitter(assets[index].id);
                }
                AssetRequest::Nothing
            },
            AssetMenuAction::Delete(index) => AssetRequest::RemoveAsset(index),
            AssetMenuAction::Reveal(index) => {
                if index >= assets.len() {
                    return AssetRequest::Nothing;
                }
                match &assets[index].media_path {
                    Some(path) => AssetRequest::Reveal {
                        media_path: copied(path),
                        in_project: connected,
                    },
                    None => AssetRequest::Nothing,
                }
            },
        }
    }

    /// Opens the dialog that takes an asset apart, with everything chosen.
    pub fn open_stem_splitter(&mut self, asset_id: u128)
        ensures
            stem_dialog(final(self).dialog, asset_id),
            final(self).pending_drop == old(self).pending_drop,
    {
        let mut selected: Vec<bool> = Vec::new();
        let mut count: usize = 0;
        while count < STEMS
            invariant
                count <= STEMS,
                selected@ == Seq::new(count as nat, |i: int| true),
            decreases STEMS - count,
        {
            selected.push(true);
            count += 1;
            assert(selected@ =~= Seq::new(count as nat, |i: int| true));
        }
        self.dialog = Some(
            AssetDialog::StemSplitter { asset_id, selected, denoise: true, dereverb_vocals: true },
        );
    }

    /// Takes news of a running analysis.
    pub fn poll_detection(&mut self, news: DetectionNews)
        ensures
            final(self).pending_drop == old(self).pending_drop,
            match old(self).dialog {
                Some(AssetDialog::Bpm { index, value, detection: Some(state) }) => {
                    match final(self).dialog {
                        Some(AssetDialog::Bpm {
                            index: place,
                            value: text,
                            detection: Some(after),
                        }) => {
                            &&& place == index
                            &&& text == value
                            &&& state.result is Some || news is Waiting ==> after == state
                            &&& state.result is None && !(news is Waiting) ==> {
                                &&& after.result is Some
                                &&& crate::tempo::answer_of(news, after.result->0)
                                &&& after.sections@ == match after.result->0 {
                                    Ok(analysis) => crate::tempo::analysed_sections(
                                        analysis,
                                        state.duration,
                                    ),
                                    Err(_) => state.sections@,
                                }
                                &&& after.applied == state.applied
                                &&& after.selected == state.selected
                                &&& after.duration == state.duration
                            }
                        },
                        _ => false,
                    }
                },
                _ => final(self).dialog == old(self).dialog,
            },
    {
        let dialog = self.dialog.take();
        self.dialog = match dialog {
            Some(AssetDialog::Bpm { index, value, detection: Some(mut state) }) => {
                state.poll(news);
                Some(AssetDialog::Bpm { index, value, detection: Some(state) })
            },
            other => other,
        };
    }

    /// Puts the tempo of a stable answer into the field, the first time it is shown.
    pub fn show_detected(&mut self)
        ensures
            final(self).pending_drop == old(self).pending_drop,
            match old(self).dialog {
                Some(AssetDialog::Bpm { index, value, detection: Some(state) }) => {
                    match final(self).dialog {
                        Some(AssetDialog::Bpm {
                            index: place,
                            value: text,
                            detection: Some(after),
                        }) => {
                            &&& place == index
                            &&& text@ == (match state.result {
                                Some(Ok(TempoAnalysis::Stable { start, end, detection })) =>
                                if state.applied {
                                    value@
                                } else {
                                    tempo_text(detection.bpm.value as nat, 2)
                                },
                                _ => value@,
                            })
                            &&& after == (BpmDetectionState {
                                applied: state.applied || state.result matches Some(
                                    Ok(TempoAnalysis::Stable { .. }),
                                ),
                                ..state
                            })
                        },
                        _ => false,
                    }
                },
                _ => final(self).dialog == old(self).dialog,
            },
    {
        let dialog = self.dialog.take();
        self.dialog = match dialog {
            Some(AssetDialog::Bpm { index, value, detection: Some(mut state) }) => {
                let value = match state.first_tempo() {
                    Some(tempo) => format_tempo(tempo.value, 2),
                    None => value,
                };
                Some(AssetDialog::Bpm { index, value, detection: Some(state) })
            },
            other => other,
        };
    }

    /// Chooses a candidate of a stable tempo, which goes into the field.
    pub fn choose_candidate(&mut self, choice: usize)
        ensures
            final(self).pending_drop == old(self).pending_drop,
            match old(self).dialog {
                Some(AssetDialog::Bpm { index, value, detection: Some(state) }) => {
                    match final(self).dialog {
                        Some(AssetDialog::Bpm {
                            index: place,
                            value: text,
                            detection: Some(after),
                        }) => {
                            &&& place == index
                            &&& match chosen_tempo(state, choice) {
                                Some(tempo) => {
                                    &&& text@ == tempo_text(tempo.value as nat, 2)
                                    &&& after.selected == choice
                                    &&& after.sections@ == (if state.sections@.len() == 0 {
                                        state.sections@
                                    } else {
                                        state.sections@.update(
                                            0,
                                            TempoSectionDraft {
                                                selected: choice,
                                                ..state.sections@[0]
                                            },
                                        )
                                    })
                                    &&& after.result == state.result
                                    &&& after.applied == state.applied
                                    &&& after.duration == state.duration
                                },
                                None => text == value && after == state,
                            }
                        },
                        _ => false,
                    }
                },
                _ => final(self).dialog == old(self).dialog,
            },
    {
        let dialog = self.dialog.take();
        self.dialog = match dialog {
            Some(AssetDialog::Bpm { index, value, detection: Some(mut state) }) => {
                let value = match state.choose_candidate(choice) {
                    Some(tempo) => format_tempo(tempo.value, 2),
                    None => value,
                };
                Some(AssetDialog::Bpm { index, value, detection: Some(state) })
            },
            other => other,
        };
    }

    /// One look at the open dialog: what stays open, what is to be done, and whether the
    /// file that was listened to is done with.
    pub fn asset_dialog(
        &mut self,
        input: DialogInput,
        assets: &Vec<AssetInfo>,
        connected: bool,
    ) -> (outcome: (DialogCommand, bool))
        ensures
            final(self).pending_drop == old(self).pending_drop,
            match old(self).dialog {
                None => final(self).dialog is None && outcome.0 is Nothing && !outcome.1,
                Some(before) => {
                    &&& dialog_step(
                        before,
                        final(self).dialog,
                        input,
                        assets@,
                        connected,
                        outcome.0,
                    )
                    &&& outcome.1 == (before is Bpm && final(self).dialog is None && connected)
                },
            },
    {
        let taken = self.dialog.take();
        let dialog = match taken {
            None => return (DialogCommand::Nothing, false),
            Some(dialog) => dialog,
        };
        let about_tempo = match &dialog {
            AssetDialog::Bpm { .. } => true,
            _ => false,
        };
        let cut = dialog.in_sections() && input.primary && connected;
        if cut && !input.cancel {
            let command = match dialog.regions(assets) {
                Some((asset_id, regions)) => DialogCommand::SubmitRegions { asset_id, regions },
                None => DialogCommand::Nothing,
            };
            self.dialog = Some(dialog);
            return (command, false);
        }
        let confirms = dialog.is_confirmed(input, connected);
        if confirms && !input.cancel {
            let command = dialog.confirm(input, assets, connected);
            return (command, about_tempo && connected);
        }
        if input.detect {
            let mut command = DialogCommand::Nothing;
            self.dialog = Some(
                match dialog {
                    AssetDialog::Bpm { index, value, detection: _ } => {
                        let mut state: Option<BpmDetectionState> = None;
                        if index < assets.len() {
                            if let Some(path) = &assets[index].media_path {
                                state = Some(BpmDetectionState::new(assets[index].duration));
                                command = DialogCommand::StartDetection {
                                    media_path: copied(path),
                                };
                            }
                        }
                        AssetDialog::Bpm { index, value, detection: state }
                    },
                    other => other,
                },
            );
            return (command, false);
        }
        if input.cancel {
            return (DialogCommand::Nothing, about_tempo && connected);
        }
        self.dialog = Some(dialog);
        (DialogCommand::Nothing, false)
    }

    /// The sections were taken as files, or were not: taken, they close the dialog.
    pub fn regions_submitted(&mut self, taken: bool) -> (ended: bool)
        ensures
            final(self).pending_drop == old(self).pending_drop,
            final(self).dialog == if taken {
                None
            } else {
                old(self).dialog
            },
            ended == (taken && old(self).dialog matches Some(AssetDialog::Bpm { .. })),
    {
        if !taken {
            return false;
        }
        let dialog = self.dialog.take();
        match dialog {
            Some(AssetDialog::Bpm { .. }) => true,
            _ => false,
        }
    }
}

/// A dialog that is cancelled, and in which no analysis is asked for, closes and does
/// nothing.
pub proof fn cancelling_does_nothing(
    before: AssetDialog,
    after: Option<AssetDialog>,
    input: DialogInput,
    assets: Seq<AssetInfo>,
    connected: bool,
    command: DialogCommand,
)
    requires
        dialog_step(before, after, input, assets, connected, command),
        input.cancel,
        !input.detect,
    ensures
        after is None,
        command is Nothing,
{
}

/// A project that does not lie on disk is never asked to cut a file or take it apart.
pub proof fn only_projects_on_disk_make_files(
    before: AssetDialog,
    after: Option<AssetDialog>,
    input: DialogInput,
    assets: Seq<AssetInfo>,
    command: DialogCommand,
)
    requires
        dialog_step(before, after, input, assets, false, command),
    ensures
        !(command is SubmitRegions),
        !(command is SplitStems),
{
}

/// A file is found by its id: the first that has it, if any has; its name and its tempo are its
/// own.
pub proof fn files_are_found_by_their_id(assets: Seq<AssetInfo>, id: u128)
    ensures
        0 <= place_of(assets, id) <= assets.len(),
        forall|i: int| 0 <= i < place_of(assets, id) ==> (#[trigger] assets[i]).id != id,
        place_of(assets, id) < assets.len() ==> {
            let asset = assets[place_of(assets, id)];
            asset.id == id && tempo_of(assets, id) == asset.tempo && name_of(assets, id)
                == asset.name@
        },
        place_of(assets, id) == assets.len() ==> tempo_of(assets, id) is None,
    decreases assets.len(),
{
    if assets.len() > 0 && assets[0].id != id {
        let rest = assets.skip(1);
        files_are_found_by_their_id(rest, id);
        assert forall|i: int| 0 <= i < place_of(assets, id) implies (#[trigger] assets[i]).id
            != id by {
            if i > 0 {
                assert(rest[i - 1] == assets[i]);
            }
        }
    }
}

/// The stems that are made are those that are ticked, in their order.
pub proof fn ticked_stems_are_made(selected: Seq<bool>)
    requires
        selected.len() <= usize::MAX,
    ensures
        forall|i: int|
            0 <= i < selected.len() && #[trigger] selected[i] ==> chosen_stems(selected).contains(
                i as usize,
            ),
        forall|i: int|
            0 <= i < chosen_stems(selected).len() ==> (#[trigger] chosen_stems(selected)[i])
                < selected.len() && selected[chosen_stems(selected)[i] as int],
        forall|i: int, j: int|
            0 <= i < j < chosen_stems(selected).len() ==> (#[trigger] chosen_stems(selected)[i])
                < (#[trigger] chosen_stems(selected)[j]),
    decreases selected.len(),
{
    if selected.len() > 0 {
        let less = selected.drop_last();
        ticked_stems_are_made(less);
        let before = chosen_stems(less);
        let after = chosen_stems(selected);
        assert forall|i: int| 0 <= i < selected.len() && #[trigger] selected[i] implies after.contains(
            i as usize,
        ) by {
            if i < less.len() {
                assert(less[i]);
                let k = choose|k: int| 0 <= k < before.len() && before[k] == i as usize;
                assert(after[k] == before[k]);
            } else {
                assert(after.last() == i as usize);
            }
        }
        assert forall|i: int| 0 <= i < after.len() implies (#[trigger] after[i]) < selected.len()
            && selected[after[i] as int] by {
            if i < before.len() {
                assert(after[i] == before[i]);
                assert(less[before[i] as int]);
            }
        }
        assert forall|i: int, j: int| 0 <= i < j < after.len() implies (#[trigger] after[i]) < (
        #[trigger] after[j]) by {
            assert(after[i] == before[i]);
            if j < before.len() {
                assert(after[j] == before[j]);
            }
        }
    }
}

/// A dialog that is confirmed ends, and does what it is for: a file gets the name that was typed
/// with its extension, or the tempo that was typed from its first beat on, or is split into the
/// stems that are ticked.
pub proof fn confirmed_dialogs_do_what_they_are_for(
    before: AssetDialog,
    after: Option<AssetDialog>,
    input: DialogInput,
    assets: Seq<AssetInfo>,
    connected: bool,
    command: DialogCommand,
)
    requires
        dialog_step(before, after, input, assets, connected, command),
        !input.cancel,
    ensures
        before matches AssetDialog::Rename { index, value, extension } ==> {
            &&& input.enter || input.primary ==> after is None && (command matches DialogCommand::Rename {
                index: place,
                name,
            } && place == index && name@ == renamed(value@, extension@))
            &&& !input.enter && !input.primary ==> after == Some(before) && command is Nothing
        },
        before matches AssetDialog::Bpm { index, value, detection: None } ==> {
            &&& input.enter || input.primary ==> after is None
            &&& (input.enter || input.primary) && index < assets.len() && (input.typed is Some)
                ==> (command matches DialogCommand::SetTempo { index: place, tempo, first_beat }
                && place == index && Some(tempo) == input.typed && (
            assets[index as int].first_beat matches Some(beat) ==> first_beat == beat) && (
            assets[index as int].first_beat is None ==> first_beat == 0))
            &&& (input.enter || input.primary) && input.typed is None ==> command is Nothing
            &&& !input.enter && !input.primary && input.detect && index < assets.len()
                && assets[index as int].media_path is Some ==> (command matches DialogCommand::StartDetection {
                media_path,
            } && media_path@ == (assets[index as int].media_path->0)@)
        },
        before matches AssetDialog::StemSplitter {
            asset_id,
            selected,
            denoise,
            dereverb_vocals,
        } ==> {
            &&& !input.primary && !input.detect ==> after == Some(before) && command is Nothing
            &&& command matches DialogCommand::SplitStems {
                asset_id: id,
                stems,
                denoise: clean,
                dereverb_vocals: dry,
                ..
            } ==> input.primary && connected && after is None && id == asset_id && stems@
                == chosen_stems(selected@) && stems@.len() > 0 && clean == denoise && dry
                == dereverb_vocals
        },
{
}

/// A file whose sections are cut gives up its regions only at the press of the button, in a
/// project on disk, and keeps its dialog until they are taken.
pub proof fn sections_are_cut_at_the_press_of_the_button(
    before: AssetDialog,
    after: Option<AssetDialog>,
    input: DialogInput,
    assets: Seq<AssetInfo>,
    connected: bool,
    command: DialogCommand,
)
    requires
        dialog_step(before, after, input, assets, connected, command),
        before is Bpm,
        before->Bpm_detection is Some,
        before->Bpm_detection->0.in_sections(),
    ensures
        command matches DialogCommand::SubmitRegions { asset_id, regions } ==> input.primary
            && connected && !input.cancel && after == Some(before) && before->Bpm_index
            < assets.len() && asset_id == assets[before->Bpm_index as int].id && Some(regions@)
            == media_regions(
            before->Bpm_detection->0.sections@,
            assets[before->Bpm_index as int].sample_rate as int,
            assets[before->Bpm_index as int].frames as int,
        ),
        input.enter && !input.primary && !input.cancel && !input.detect ==> after == Some(before)
            && command is Nothing,
{
}

/// The splitter starts with all eight stems ticked and both clean-ups on.
pub proof fn splitters_start_with_everything(dialog: AssetDialog, asset_id: u128)
    requires
        stem_dialog(Some(dialog), asset_id),
    ensures
        dialog matches AssetDialog::StemSplitter {
            asset_id: id,
            selected,
            denoise,
            dereverb_vocals,
        } && id == asset_id && selected@.len() == 8 && denoise && dereverb_vocals && (forall|
            i: int,
        |
            0 <= i < 8 ==> #[trigger] selected@[i]) && chosen_stems(selected@).len() == 8,
{
    let selected = dialog->StemSplitter_selected@;
    lemma_all_ticked(selected);
}

proof fn lemma_all_ticked(selected: Seq<bool>)
    requires
        forall|i: int| 0 <= i < selected.len() ==> #[trigger] selected[i],
    ensures
        chosen_stems(selected).len() == selected.len(),
    decreases selected.len(),
{
    if selected.len() > 0 {
        let less = selected.drop_last();
        assert forall|i: int| 0 <= i < less.len() implies #[trigger] less[i] by {
            assert(selected[i]);
        }
        lemma_all_ticked(less);
    }
}

/// The button at the end can be used for a name at any time, for a tempo unless the file is to be
/// cut in a project that is not on disk, and for stems in a project on disk if any is ticked.
pub proof fn buttons_can_be_used_when_they_do_something(dialog: AssetDialog, connected: bool)
    ensures
        dialog is Rename ==> primary_enabled(dialog, connected),
        dialog is Bpm ==> (primary_enabled(dialog, connected) <==> connected || !(
        dialog->Bpm_detection matches Some(state) && state.in_sections())),
        dialog is StemSplitter ==> (primary_enabled(dialog, connected) <==> connected
            && chosen_stems(dialog->StemSplitter_selected@).len() > 0),
{
}

/// A dialog shows what there is: the name of a file without its extension, which stays; its tempo
/// in hundredths, or nothing. A file that is dropped with another tempo waits where it was
/// dropped.
pub proof fn dialogs_show_what_there_is(
    dialog: AssetDialog,
    index: usize,
    front: Seq<char>,
    back: Seq<char>,
    tempo: Option<u32>,
    pending: PendingAssetDrop,
    assets: Seq<AssetInfo>,
    asset_id: u128,
    beat: i64,
    track: Option<usize>,
    asset_tempo: u32,
    project_tempo: u32,
)
    requires
        front.len() > 0,
        !front.contains('/'),
        !back.contains('.') && !back.contains('/'),
    ensures
        rename_dialog(Some(dialog), index, front + seq!['.'] + back) && front + seq!['.'] + back
            != seq!['.', '.'] ==> (dialog matches AssetDialog::Rename {
            index: place,
            value,
            extension,
        } && place == index && value@ == front && extension@ == back),
        tempo_dialog(Some(dialog), index, tempo) ==> (dialog matches AssetDialog::Bpm {
            index: place,
            value,
            detection,
        } && place == index && detection is None && (tempo is None ==> value@.len() == 0) && (
        tempo matches Some(tempo) ==> value@ == crate::numbers::fixed(
            tempo as nat,
            1_000,
            2,
            crate::numbers::Precision::Single,
        ))),
        waits(
            Some(pending),
            assets,
            asset_id,
            beat,
            track,
            asset_tempo,
            project_tempo,
        ) ==> pending.asset_id == asset_id && pending.beat == beat && pending.track == track
            && pending.asset_tempo == asset_tempo && pending.project_tempo == project_tempo
            && pending.asset_name@ == name_of(assets, asset_id),
{
    let name = front + seq!['.'] + back;
    assert(!name.contains('/')) by {
        assert forall|i: int| 0 <= i < name.len() implies name[i] != '/' by {
            if i < front.len() {
                assert(name[i] == front[i]);
            } else if i > front.len() {
                assert(name[i] == back[i - front.len() - 1]);
            }
        }
    }
    assert(name.len() >= 2);
    crate::names::plain_names_are_their_own_last_part(name);
    crate::names::names_come_apart_at_the_last_dot(front, back);
}

/// The line below the waveform says that there is nothing to listen to, that it is loading, what
/// went wrong, or where it is and how long it is.
pub proof fn previews_say_where_they_are(status: AssetPreviewStatus)
    ensures
        preview_text(None) == "PREVIEW UNAVAILABLE"@,
        status.loading ==> preview_text(Some(status)) == "LOADING AUDIO…"@,
        !status.loading ==> (status.error matches Some(error) ==> preview_text(Some(status))
            == "PREVIEW ERROR · "@ + error@),
        !status.loading && status.error is None ==> preview_text(Some(status))
            == preview_time_text(status.position as nat) + " / "@ + preview_time_text(
            status.duration as nat,
        ),
{
}

/// The button at the end says how many stems will be made, what is made of the sections, or that
/// the change is made.
pub proof fn buttons_say_what_they_do(dialog: AssetDialog, count: nat)
    ensures
        dialog is Rename ==> primary_text(dialog) == "APPLY"@,
        dialog is StemSplitter && chosen_stems(dialog->StemSplitter_selected@).len() == 1
            ==> primary_text(dialog) == "SPLIT INTO "@ + decimal(1) + " STEM"@,
        dialog is StemSplitter && chosen_stems(dialog->StemSplitter_selected@).len() == count
            && count != 1 ==> primary_text(dialog) == "SPLIT INTO "@ + decimal(count) + " STEM"@
            + "S"@,
        dialog is Bpm && (dialog->Bpm_detection matches Some(state) && state.in_sections())
            ==> primary_text(dialog) == "CREATE ASSETS FROM DETECTED SECTIONS"@,
        dialog is Bpm && dialog->Bpm_detection is None ==> primary_text(dialog) == "APPLY"@,
{
    reveal_strlit("");
    assert("SPLIT INTO "@ + decimal(1) + " STEM"@ + ""@ =~= "SPLIT INTO "@ + decimal(1)
        + " STEM"@);
}

/// The stems are made of the file that the dialog is about: its audio, under its name.
pub proof fn stems_are_made_of_the_file(
    before: AssetDialog,
    after: Option<AssetDialog>,
    input: DialogInput,
    assets: Seq<AssetInfo>,
    connected: bool,
    command: DialogCommand,
)
    requires
        dialog_step(before, after, input, assets, connected, command),
        before is StemSplitter,
        input.primary,
        !input.cancel,
        !input.detect,
    ensures
        ({
            let id = before->StemSplitter_asset_id;
            let place = place_of(assets, id);
            let asset = assets[place];
            let selected = before->StemSplitter_selected@;
            let there = place < assets.len() && asset.media_path is Some;
            &&& connected && chosen_stems(selected).len() > 0 && there ==> (command matches DialogCommand::SplitStems {
                asset_id,
                media_path,
                content_hash,
                name,
                ..
            } && asset_id == id && media_path@ == (asset.media_path->0)@ && name@ == asset.name@ && (
            content_hash is Some <==> asset.content_hash is Some) && (content_hash matches Some(
                hash,
            ) ==> hash@ == (asset.content_hash->0)@))
            &&& !connected || chosen_stems(selected).len() == 0 ==> command is Nothing && after
                == Some(before)
        }),
{
    files_are_found_by_their_id(assets, before->StemSplitter_asset_id);
}

/// A file whose name is no part of a path is renamed as a whole.
pub proof fn names_that_are_no_part_are_renamed_whole(
    dialog: AssetDialog,
    index: usize,
    name: Seq<char>,
)
    requires
        rename_dialog(Some(dialog), index, name),
        last_part(name) is None,
    ensures
        dialog matches AssetDialog::Rename { index: place, value, extension } && place == index
            && value@ == name && extension@.len() == 0,
{
}

} // verus!
