//! The list of assets: its rows, its folders, and the menus of its rows.
use crate::clock::BEAT_PARTS;
use crate::numbers::{fixed, push_fixed, Precision};
use crate::text::{decimal, push_decimal};
use std::collections::{HashMap, HashSet};
use vstd::prelude::*;

verus! {

broadcast use vstd::std_specs::hash::group_hash_axioms;

/// A folder of the list.
#[derive(Debug)]
pub struct AssetFolder {
    pub id: u128,
    pub asset_ids: Vec<u128>,
    pub event_data_ids: Vec<u128>,
}

/// A row of the list. Assets and folders are named by their places.
#[derive(Clone, Copy, Debug, PartialEq, Eq, Structural)]
pub enum AssetBrowserRow {
    Audio(usize),
    Midi(usize),
    Folder { index: usize, collapsed: bool },
}

/// The two sorts of assets.
#[derive(Clone, Copy, Debug, PartialEq, Eq, Structural)]
pub enum AssetKind {
    Audio,
    Midi,
}

/// What a folder holds of a sort.
pub open spec fn filed(folder: AssetFolder, kind: AssetKind) -> Seq<u128> {
    match kind {
        AssetKind::Audio => folder.asset_ids@,
        AssetKind::Midi => folder.event_data_ids@,
    }
}

/// The row of an asset.
pub open spec fn asset_row(kind: AssetKind, index: usize) -> AssetBrowserRow {
    match kind {
        AssetKind::Audio => AssetBrowserRow::Audio(index),
        AssetKind::Midi => AssetBrowserRow::Midi(index),
    }
}

/// The folder of each asset after some assets were filed in one folder.
pub open spec fn file_all(homes: Map<u128, u128>, ids: Seq<u128>, folder: u128) -> Map<u128, u128>
    decreases ids.len(),
{
    if ids.len() == 0 {
        homes
    } else {
        file_all(homes, ids.drop_last(), folder).insert(ids.last(), folder)
    }
}

/// The folder of each asset that is in one; the last folder that names an asset has it.
pub open spec fn homes_of(folders: Seq<AssetFolder>, kind: AssetKind) -> Map<u128, u128>
    decreases folders.len(),
{
    if folders.len() == 0 {
        Map::empty()
    } else {
        file_all(
            homes_of(folders.drop_last(), kind),
            filed(folders.last(), kind),
            folders.last().id,
        )
    }
}

/// The folder of an asset, if it is in one.
pub open spec fn home(homes: Map<u128, u128>, id: u128) -> Option<u128> {
    if homes.contains_key(id) {
        Some(homes[id])
    } else {
        None
    }
}

/// The rows of the assets that are in a folder, or in none, in the order of the assets.
pub open spec fn rows_in(
    items: Seq<(usize, u128)>,
    homes: Map<u128, u128>,
    folder: Option<u128>,
    kind: AssetKind,
) -> Seq<AssetBrowserRow>
    decreases items.len(),
{
    if items.len() == 0 {
        Seq::empty()
    } else {
        let before = rows_in(items.drop_last(), homes, folder, kind);
        if home(homes, items.last().1) == folder {
            before.push(asset_row(kind, items.last().0))
        } else {
            before
        }
    }
}

/// The rows of the first `count` folders.
pub open spec fn folder_rows(
    audio: Seq<(usize, u128)>,
    midi: Seq<(usize, u128)>,
    folders: Seq<AssetFolder>,
    collapsed: Set<u128>,
    count: nat,
) -> Seq<AssetBrowserRow>
    decreases count,
{
    if count == 0 || count > folders.len() {
        Seq::empty()
    } else {
        let index = count - 1;
        let folder = folders[index].id;
        let before = folder_rows(audio, midi, folders, collapsed, index as nat).push(
            AssetBrowserRow::Folder {
                index: index as usize,
                collapsed: collapsed.contains(folder),
            },
        );
        if collapsed.contains(folder) {
            before
        } else {
            before + rows_in(
                audio,
                homes_of(folders, AssetKind::Audio),
                Some(folder),
                AssetKind::Audio,
            ) + rows_in(
                midi,
                homes_of(folders, AssetKind::Midi),
                Some(folder),
                AssetKind::Midi,
            )
        }
    }
}

/// The rows of the list: assets in no folder, then each folder with what it holds, unless
/// it is collapsed.
pub open spec fn browser_rows(
    audio: Seq<(usize, u128)>,
    midi: Seq<(usize, u128)>,
    folders: Seq<AssetFolder>,
    collapsed: Set<u128>,
) -> Seq<AssetBrowserRow> {
    rows_in(audio, homes_of(folders, AssetKind::Audio), None, AssetKind::Audio) + rows_in(
        midi,
        homes_of(folders, AssetKind::Midi),
        None,
        AssetKind::Midi,
    ) + folder_rows(audio, midi, folders, collapsed, folders.len())
}

fn find_homes(folders: &Vec<AssetFolder>, kind: AssetKind) -> (homes: HashMap<u128, u128>)
    ensures
        homes@ == homes_of(folders@, kind),
{
    let mut homes: HashMap<u128, u128> = HashMap::new();
    let mut index: usize = 0;
    while index < folders.len()
        invariant
            index <= folders.len(),
            homes@ == homes_of(folders@.take(index as int), kind),
        decreases folders.len() - index,
    {
        let folder = &folders[index];
        let ids: &Vec<u128> = match kind {
            AssetKind::Audio => &folder.asset_ids,
            AssetKind::Midi => &folder.event_data_ids,
        };
        let ghost before = homes@;
        let mut place: usize = 0;
        assert(ids@.take(0) =~= Seq::empty());
        while place < ids.len()
            invariant
                place <= ids.len(),
                homes@ == file_all(before, ids@.take(place as int), folder.id),
            decreases ids.len() - place,
        {
            homes.insert(ids[place], folder.id);
            assert(ids@.take(place + 1).drop_last() =~= ids@.take(place as int));
            place += 1;
        }
        assert(ids@.take(place as int) =~= ids@);
        assert(folders@.take(index + 1).drop_last() =~= folders@.take(index as int));
        index += 1;
    }
    assert(folders@.take(index as int) =~= folders@);
    homes
}

fn push_rows(
    rows: &mut Vec<AssetBrowserRow>,
    items: &Vec<(usize, u128)>,
    homes: &HashMap<u128, u128>,
    folder: Option<u128>,
    kind: AssetKind,
)
    ensures
        final(rows)@ == old(rows)@ + rows_in(items@, homes@, folder, kind),
{
    let mut index: usize = 0;
    assert(items@.take(0) =~= Seq::empty());
    assert(rows@ =~= old(rows)@ + rows_in(items@.take(0), homes@, folder, kind));
    while index < items.len()
        invariant
            index <= items.len(),
            rows@ == old(rows)@ + rows_in(items@.take(index as int), homes@, folder, kind),
        decreases items.len() - index,
    {
        let (place, id) = items[index];
        assert(items@.take(index + 1).drop_last() =~= items@.take(index as int));
        let found: Option<u128> = match homes.get(&id) {
            Some(found) => Some(*found),
            None => None,
        };
        if found == folder {
            rows.push(
                match kind {
                    AssetKind::Audio => AssetBrowserRow::Audio(place),
                    AssetKind::Midi => AssetBrowserRow::Midi(place),
                },
            );
        }
        index += 1;
        assert(rows@ =~= old(rows)@ + rows_in(items@.take(index as int), homes@, folder, kind));
    }
    assert(items@.take(index as int) =~= items@);
}

/// The rows of the list, from the places and ids of the assets.
pub fn asset_browser_rows(
    audio: &Vec<(usize, u128)>,
    midi: &Vec<(usize, u128)>,
    folders: &Vec<AssetFolder>,
    collapsed: &HashSet<u128>,
) -> (rows: Vec<AssetBrowserRow>)
    ensures
        rows@ == browser_rows(audio@, midi@, folders@, collapsed@),
{
    let audio_homes = find_homes(folders, AssetKind::Audio);
    let midi_homes = find_homes(folders, AssetKind::Midi);
    let mut rows: Vec<AssetBrowserRow> = Vec::new();
    push_rows(&mut rows, audio, &audio_homes, None, AssetKind::Audio);
    push_rows(&mut rows, midi, &midi_homes, None, AssetKind::Midi);
    let ghost loose = rows@;
    let mut index: usize = 0;
    while index < folders.len()
        invariant
            index <= folders.len(),
            audio_homes@ == homes_of(folders@, AssetKind::Audio),
            midi_homes@ == homes_of(folders@, AssetKind::Midi),
            rows@ == loose + folder_rows(audio@, midi@, folders@, collapsed@, index as nat),
        decreases folders.len() - index,
    {
        let folder: u128 = folders[index].id;
        let shut = collapsed.contains(&folder);
        rows.push(AssetBrowserRow::Folder { index, collapsed: shut });
        if !shut {
            push_rows(&mut rows, audio, &audio_homes, Some(folder), AssetKind::Audio);
            push_rows(&mut rows, midi, &midi_homes, Some(folder), AssetKind::Midi);
        }
        index += 1;
        assert(rows@ =~= loose + folder_rows(
            audio@,
            midi@,
            folders@,
            collapsed@,
            index as nat,
        ));
    }
    assert(rows@ =~= browser_rows(audio@, midi@, folders@, collapsed@));
    rows
}

/// Opens a collapsed folder, and collapses an open one.
pub fn toggle_folder(collapsed: &mut HashSet<u128>, folder: u128)
    ensures
        final(collapsed)@ == if old(collapsed)@.contains(folder) {
            old(collapsed)@.remove(folder)
        } else {
            old(collapsed)@.insert(folder)
        },
{
    if !collapsed.insert(folder) {
        collapsed.remove(&folder);
        assert(collapsed@ =~= old(collapsed)@.remove(folder));
    }
}

proof fn lemma_row_shown(
    items: Seq<(usize, u128)>,
    homes: Map<u128, u128>,
    folder: Option<u128>,
    kind: AssetKind,
    place: int,
)
    requires
        0 <= place < items.len(),
        home(homes, items[place].1) == folder,
    ensures
        rows_in(items, homes, folder, kind).contains(asset_row(kind, items[place].0)),
    decreases items.len(),
{
    let before = rows_in(items.drop_last(), homes, folder, kind);
    let row = asset_row(kind, items[place].0);
    if place == items.len() - 1 {
        assert(before.push(row)[before.len() as int] == row);
    } else {
        lemma_row_shown(items.drop_last(), homes, folder, kind, place);
        let found = choose|i: int| 0 <= i < before.len() && before[i] == row;
        let rows = rows_in(items, homes, folder, kind);
        assert(rows[found] == row);
    }
}

proof fn lemma_filed(homes: Map<u128, u128>, ids: Seq<u128>, folder: u128, id: u128)
    ensures
        home(file_all(homes, ids, folder), id) == Some(folder) || home(
            file_all(homes, ids, folder),
            id,
        ) == home(homes, id),
    decreases ids.len(),
{
    if ids.len() > 0 {
        lemma_filed(homes, ids.drop_last(), folder, id);
    }
}

proof fn lemma_home_exists(folders: Seq<AssetFolder>, kind: AssetKind, id: u128) -> (index: int)
    requires
        home(homes_of(folders, kind), id) is Some,
    ensures
        0 <= index < folders.len(),
        folders[index].id == home(homes_of(folders, kind), id)->0,
    decreases folders.len(),
{
    let before = homes_of(folders.drop_last(), kind);
    lemma_filed(before, filed(folders.last(), kind), folders.last().id, id);
    if folders.last().id == home(homes_of(folders, kind), id)->0 {
        folders.len() - 1
    } else {
        lemma_home_exists(folders.drop_last(), kind, id)
    }
}

proof fn lemma_folder_shown(
    audio: Seq<(usize, u128)>,
    midi: Seq<(usize, u128)>,
    folders: Seq<AssetFolder>,
    collapsed: Set<u128>,
    count: nat,
    index: int,
    row: AssetBrowserRow,
)
    requires
        0 <= index < count <= folders.len(),
        !collapsed.contains(folders[index].id),
        rows_in(
            audio,
            homes_of(folders, AssetKind::Audio),
            Some(folders[index].id),
            AssetKind::Audio,
        ).contains(row) || rows_in(
            midi,
            homes_of(folders, AssetKind::Midi),
            Some(folders[index].id),
            AssetKind::Midi,
        ).contains(row),
    ensures
        folder_rows(audio, midi, folders, collapsed, count).contains(row),
    decreases count,
{
    let last = count - 1;
    let head = folder_rows(audio, midi, folders, collapsed, last as nat);
    let opened = head.push(
        AssetBrowserRow::Folder {
            index: last as usize,
            collapsed: collapsed.contains(folders[last].id),
        },
    );
    let rows = folder_rows(audio, midi, folders, collapsed, count);
    if index == last {
        let first = rows_in(
            audio,
            homes_of(folders, AssetKind::Audio),
            Some(folders[index].id),
            AssetKind::Audio,
        );
        let second = rows_in(
            midi,
            homes_of(folders, AssetKind::Midi),
            Some(folders[index].id),
            AssetKind::Midi,
        );
        if first.contains(row) {
            let found = choose|i: int| 0 <= i < first.len() && first[i] == row;
            assert(rows[opened.len() + found] == row);
        } else {
            let found = choose|i: int| 0 <= i < second.len() && second[i] == row;
            assert(rows[opened.len() + first.len() + found] == row);
        }
    } else {
        lemma_folder_shown(audio, midi, folders, collapsed, last as nat, index, row);
        let found = choose|i: int| 0 <= i < head.len() && head[i] == row;
        assert(rows[found] == row);
    }
}

/// Every asset has a row, unless the folder that has it is collapsed.
pub proof fn only_a_collapsed_folder_hides_an_asset(
    audio: Seq<(usize, u128)>,
    midi: Seq<(usize, u128)>,
    folders: Seq<AssetFolder>,
    collapsed: Set<u128>,
    kind: AssetKind,
    place: int,
)
    requires
        0 <= place < match kind {
            AssetKind::Audio => audio.len(),
            AssetKind::Midi => midi.len(),
        },
        ({
            let items = match kind {
                AssetKind::Audio => audio,
                AssetKind::Midi => midi,
            };
            match home(homes_of(folders, kind), items[place].1) {
                Some(folder) => !collapsed.contains(folder),
                None => true,
            }
        }),
    ensures
        ({
            let items = match kind {
                AssetKind::Audio => audio,
                AssetKind::Midi => midi,
            };
            browser_rows(audio, midi, folders, collapsed).contains(
                asset_row(kind, items[place].0),
            )
        }),
{
    let items = match kind {
        AssetKind::Audio => audio,
        AssetKind::Midi => midi,
    };
    let homes = homes_of(folders, kind);
    let row = asset_row(kind, items[place].0);
    let rows = browser_rows(audio, midi, folders, collapsed);
    let first = rows_in(audio, homes_of(folders, AssetKind::Audio), None, AssetKind::Audio);
    let second = rows_in(midi, homes_of(folders, AssetKind::Midi), None, AssetKind::Midi);
    let third = folder_rows(audio, midi, folders, collapsed, folders.len());
    match home(homes, items[place].1) {
        None => {
            lemma_row_shown(items, homes, None, kind, place);
            match kind {
                AssetKind::Audio => {
                    let found = choose|i: int| 0 <= i < first.len() && first[i] == row;
                    assert(rows[found] == row);
                },
                AssetKind::Midi => {
                    let found = choose|i: int| 0 <= i < second.len() && second[i] == row;
                    assert(rows[first.len() + found] == row);
                },
            }
        },
        Some(folder) => {
            lemma_row_shown(items, homes, Some(folder), kind, place);
            let index = lemma_home_exists(folders, kind, items[place].1);
            lemma_folder_shown(audio, midi, folders, collapsed, folders.len(), index, row);
            let found = choose|i: int| 0 <= i < third.len() && third[i] == row;
            assert(rows[first.len() + second.len() + found] == row);
        },
    }
}

/// What a menu of the list asks for, about the asset at a place.
#[derive(Clone, Copy, Debug, PartialEq, Eq, Structural)]
pub enum AssetMenuAction {
    Import,
    AddToTimeline(usize),
    AddMidiToTimeline(usize),
    Rename(usize),
    Delete(usize),
    SetBpm(usize),
    ConvertToMidi(usize),
    StemSplitter(usize),
    Reveal(usize),
}

/// A line of a menu.
#[derive(Clone, Copy, Debug)]
pub struct MenuEntry {
    pub label: &'static str,
    pub enabled: bool,
    /// Why the line cannot be used, where it cannot.
    pub hint: &'static str,
    pub action: AssetMenuAction,
}

/// What stands in a line of a menu.
pub open spec fn entry(
    label: Seq<char>,
    enabled: bool,
    hint: Seq<char>,
    action: AssetMenuAction,
) -> (Seq<char>, bool, Seq<char>, AssetMenuAction) {
    (label, enabled, hint, action)
}

/// What stands in a line of a menu.
pub open spec fn entry_of(line: MenuEntry) -> (Seq<char>, bool, Seq<char>, AssetMenuAction) {
    entry(line.label@, line.enabled, line.hint@, line.action)
}

/// The menu of an audio asset, or of the list itself. `enabled` says that the asset's
/// audio, or the project on disk, is at hand.
pub open spec fn menu_lines(
    asset: Option<usize>,
    enabled: bool,
    transcribing: bool,
    splitting_stems: bool,
) -> Seq<(Seq<char>, bool, Seq<char>, AssetMenuAction)> {
    match asset {
        Some(index) => seq![
            entry("ADD TO TIMELINE"@, true, ""@, AssetMenuAction::AddToTimeline(index)),
            entry("RENAME…"@, true, ""@, AssetMenuAction::Rename(index)),
            entry("SET TEMPO…"@, true, ""@, AssetMenuAction::SetBpm(index)),
            entry(
                if transcribing {
                    "CONVERTING TO MIDI…"@
                } else {
                    "CONVERT TO MIDI"@
                },
                enabled && !transcribing,
                if transcribing {
                    "Basic Pitch is already converting this asset"@
                } else {
                    "This audio asset is not materialized"@
                },
                AssetMenuAction::ConvertToMidi(index),
            ),
            entry(
                if splitting_stems {
                    "SPLITTING STEMS…"@
                } else {
                    "STEM SPLITTER…"@
                },
                enabled && !splitting_stems,
                if splitting_stems {
                    "X-LANCE is already splitting this asset"@
                } else {
                    "This audio asset is not materialized"@
                },
                AssetMenuAction::StemSplitter(index),
            ),
            entry("REVEAL IN FILE MANAGER"@, true, ""@, AssetMenuAction::Reveal(index)),
            entry("DELETE"@, true, ""@, AssetMenuAction::Delete(index)),
        ],
        None => seq![
            entry(
                "ADD AUDIO ASSET…"@,
                enabled,
                "Open a persistent project to import audio"@,
                AssetMenuAction::Import,
            ),
        ],
    }
}

fn line(
    label: &'static str,
    enabled: bool,
    hint: &'static str,
    action: AssetMenuAction,
) -> (entry: MenuEntry)
    ensures
        entry_of(entry) == self::entry(label@, enabled, hint@, action),
{
    MenuEntry { label, enabled, hint, action }
}

/// The menu of an audio asset, or of the list itself.
pub fn asset_context_menu(
    asset: Option<usize>,
    enabled: bool,
    transcribing: bool,
    splitting_stems: bool,
) -> (menu: Vec<MenuEntry>)
    ensures
        menu@.map_values(|line: MenuEntry| entry_of(line)) == menu_lines(
            asset,
            enabled,
            transcribing,
            splitting_stems,
        ),
{
    let mut menu: Vec<MenuEntry> = Vec::new();
    match asset {
        Some(index) => {
            menu.push(line("ADD TO TIMELINE", true, "", AssetMenuAction::AddToTimeline(index)));
            menu.push(line("RENAME…", true, "", AssetMenuAction::Rename(index)));
            menu.push(line("SET TEMPO…", true, "", AssetMenuAction::SetBpm(index)));
            menu.push(
                line(
                    if transcribing {
                        "CONVERTING TO MIDI…"
                    } else {
                        "CONVERT TO MIDI"
                    },
                    enabled && !transcribing,
                    if transcribing {
                        "Basic Pitch is already converting this asset"
                    } else {
                        "This audio asset is not materialized"
                    },
                    AssetMenuAction::ConvertToMidi(index),
                ),
            );
            menu.push(
                line(
                    if splitting_stems {
                        "SPLITTING STEMS…"
                    } else {
                        "STEM SPLITTER…"
                    },
                    enabled && !splitting_stems,
                    if splitting_stems {
                        "X-LANCE is already splitting this asset"
                    } else {
                        "This audio asset is not materialized"
                    },
                    AssetMenuAction::StemSplitter(index),
                ),
            );
            menu.push(line("REVEAL IN FILE MANAGER", true, "", AssetMenuAction::Reveal(index)));
            menu.push(line("DELETE", true, "", AssetMenuAction::Delete(index)));
        },
        None => {
            menu.push(
                line(
                    "ADD AUDIO ASSET…",
                    enabled,
                    "Open a persistent project to import audio",
                    AssetMenuAction::Import,
                ),
            );
        },
    }
    assert(menu@.map_values(|line: MenuEntry| entry_of(line)) =~= menu_lines(
        asset,
        enabled,
        transcribing,
        splitting_stems,
    ));
    menu
}

/// The menu of a MIDI asset.
pub fn midi_asset_context_menu(index: usize) -> (entry: MenuEntry)
    ensures
        entry_of(entry) == self::entry(
            "ADD TO TIMELINE"@,
            true,
            ""@,
            AssetMenuAction::AddMidiToTimeline(index),
        ),
{
    line("ADD TO TIMELINE", true, "", AssetMenuAction::AddMidiToTimeline(index))
}

/// The title of the list: how many assets it has.
pub fn source_count(audio: u32, midi: u32) -> (text: String)
    ensures
        text@ == decimal((audio + midi) as nat) + " sources"@,
{
    let mut text = String::new();
    push_decimal(&mut text, audio as u64 + midi as u64);
    text.append(" sources");
    assert(text@ =~= decimal((audio + midi) as nat) + " sources"@);
    text
}

/// The number of channels of an asset, in a word.
pub open spec fn channels_text(channels: u16) -> Seq<char> {
    if channels == 1 {
        "MONO"@
    } else {
        "STEREO"@
    }
}

/// The number of channels of an asset, in a word.
pub fn channel_label(channels: u16) -> (label: &'static str)
    ensures
        label@ == channels_text(channels),
{
    if channels == 1 {
        "MONO"
    } else {
        "STEREO"
    }
}

/// The texts of a row of the list.
#[derive(Debug)]
pub struct AssetRowTexts {
    pub details: String,
    pub remark: String,
    pub hint: &'static str,
}

/// The texts of the row of a recording: its length, given in nanoseconds, its channels, and
/// its tempo, given in thousandths of a beat per minute.
pub fn audio_asset_row(duration: u64, channels: u16, tempo: Option<u32>) -> (texts: AssetRowTexts)
    ensures
        texts.details@ == fixed(
            duration as nat,
            1_000_000_000,
            2,
            Precision::Single,
        ) + "s  ·  "@ + channels_text(
            channels,
        ),
        texts.remark@ == match tempo {
            Some(tempo) => fixed(tempo as nat, 1_000, 0, Precision::Single) + " BPM"@,
            None => "BPM NOT SET"@,
        },
        texts.hint@ == "Drag onto the arrangement to create an audio clip"@,
{
    let mut details = String::new();
    push_fixed(&mut details, duration, 1_000_000_000, 2, Precision::Single);
    details.append("s  ·  ");
    details.append(channel_label(channels));
    assert(details@ =~= fixed(
            duration as nat,
            1_000_000_000,
            2,
            Precision::Single,
        ) + "s  ·  "@ + channels_text(
        channels,
    ));
    let remark = match tempo {
        Some(tempo) => {
            let mut remark = String::new();
            push_fixed(&mut remark, tempo as u64, 1_000, 0, Precision::Single);
            remark.append(" BPM");
            assert(remark@ =~= fixed(tempo as nat, 1_000, 0, Precision::Single) + " BPM"@);
            remark
        },
        None => String::from_str("BPM NOT SET"),
    };
    AssetRowTexts { details, remark, hint: "Drag onto the arrangement to create an audio clip" }
}

/// The texts of the row of a list of notes; its length is given in parts of a beat.
pub fn midi_asset_row(notes: u64, duration: u64) -> (texts: AssetRowTexts)
    ensures
        texts.details@ == decimal(notes as nat) + " NOTES  ·  "@ + fixed(
            duration as nat,
            BEAT_PARTS as nat,
            2,
            Precision::Single,
        ) + " BEATS"@,
        texts.remark@ == "MIDI EVENT ASSET"@,
        texts.hint@ == "Drag onto the arrangement to create an editable event clip"@,
{
    let mut details = String::new();
    push_decimal(&mut details, notes);
    details.append(" NOTES  ·  ");
    push_fixed(&mut details, duration, BEAT_PARTS as u64, 2, Precision::Single);
    details.append(" BEATS");
    assert(details@ =~= decimal(notes as nat) + " NOTES  ·  "@ + fixed(
        duration as nat,
        BEAT_PARTS as nat,
        2,
        Precision::Single,
    ) + " BEATS"@);
    AssetRowTexts {
        details,
        remark: String::from_str("MIDI EVENT ASSET"),
        hint: "Drag onto the arrangement to create an editable event clip",
    }
}

impl AssetFolder {
    /// The arrow of the row of a folder, and how much the folder holds.
    pub fn asset_folder_row(&self, collapsed: bool) -> (texts: (&'static str, String))
        requires
            self.asset_ids@.len() + self.event_data_ids@.len() <= usize::MAX,
        ensures
            texts.0@ == if collapsed {
                "›"@
            } else {
                "⌄"@
            },
            texts.1@ == decimal(self.asset_ids@.len() + self.event_data_ids@.len()),
    {
        let mut count = String::new();
        let held: usize = self.asset_ids.len() + self.event_data_ids.len();
        push_decimal(&mut count, held as u64);
        assert(count@ =~= decimal(self.asset_ids@.len() + self.event_data_ids@.len()));
        (
            if collapsed {
                "›"
            } else {
                "⌄"
            },
            count,
        )
    }
}

/// A file lives in the last folder that has it, and outside of all folders if none has.
pub proof fn files_live_in_the_last_folder_that_has_them(
    folders: Seq<AssetFolder>,
    kind: AssetKind,
    id: u128,
    index: int,
)
    ensures
        (forall|i: int| 0 <= i < folders.len() ==> !filed(#[trigger] folders[i], kind).contains(id))
            ==> home(homes_of(folders, kind), id) is None,
        0 <= index < folders.len() && filed(folders[index], kind).contains(id) && (forall|i: int|
            index < i < folders.len() ==> !filed(#[trigger] folders[i], kind).contains(id))
            ==> home(homes_of(folders, kind), id) == Some(folders[index].id),
    decreases folders.len(),
{
    if folders.len() > 0 {
        let less = folders.drop_last();
        let last = folders.last();
        files_live_in_the_last_folder_that_has_them(less, kind, id, index);
        lemma_filed_last(homes_of(less, kind), filed(last, kind), last.id, id);
        assert(folders[folders.len() - 1] == last);
        assert forall|i: int| 0 <= i < less.len() implies #[trigger] less[i] == folders[i] by {
        }
        if forall|i: int| 0 <= i < folders.len() ==> !filed(#[trigger] folders[i], kind).contains(
            id,
        ) {
            assert(!filed(folders[folders.len() - 1], kind).contains(id));
            assert forall|i: int| 0 <= i < less.len() implies !filed(
                #[trigger] less[i],
                kind,
            ).contains(id) by {
                assert(!filed(folders[i], kind).contains(id));
            }
        }
        if 0 <= index < less.len() && filed(folders[index], kind).contains(id) && (forall|i: int|
            index < i < folders.len() ==> !filed(#[trigger] folders[i], kind).contains(id)) {
            assert(!filed(folders[folders.len() - 1], kind).contains(id));
            assert forall|i: int| index < i < less.len() implies !filed(
                #[trigger] less[i],
                kind,
            ).contains(id) by {
                assert(!filed(folders[i], kind).contains(id));
            }
        }
    }
}

proof fn lemma_filed_last(homes: Map<u128, u128>, ids: Seq<u128>, folder: u128, id: u128)
    ensures
        ids.contains(id) ==> home(file_all(homes, ids, folder), id) == Some(folder),
        !ids.contains(id) ==> home(file_all(homes, ids, folder), id) == home(homes, id),
    decreases ids.len(),
{
    if ids.len() > 0 {
        let less = ids.drop_last();
        lemma_filed_last(homes, less, folder, id);
        assert(ids[ids.len() - 1] == ids.last());
        if less.contains(id) {
            let i = choose|i: int| 0 <= i < less.len() && less[i] == id;
            assert(ids[i] == id);
        }
        if ids.contains(id) && id != ids.last() {
            let i = choose|i: int| 0 <= i < ids.len() && ids[i] == id;
            assert(less[i] == id);
        }
    }
}

/// A folder shows exactly the files that live in it.
pub proof fn folders_show_the_files_that_live_in_them(
    items: Seq<(usize, u128)>,
    homes: Map<u128, u128>,
    folder: Option<u128>,
    kind: AssetKind,
    place: usize,
)
    ensures
        rows_in(items, homes, folder, kind).contains(asset_row(kind, place)) <==> exists|i: int|
            0 <= i < items.len() && (#[trigger] items[i]).0 == place && home(homes, items[i].1)
                == folder,
        forall|i: int|
            0 <= i < rows_in(items, homes, folder, kind).len() ==> (kind is Audio && #[trigger] rows_in(
                items,
                homes,
                folder,
                kind,
            )[i] is Audio) || (kind is Midi && rows_in(items, homes, folder, kind)[i] is Midi),
    decreases items.len(),
{
    let row = asset_row(kind, place);
    let after = rows_in(items, homes, folder, kind);
    if items.len() > 0 {
        let less = items.drop_last();
        folders_show_the_files_that_live_in_them(less, homes, folder, kind, place);
        let before = rows_in(less, homes, folder, kind);
        let last = items.last();
        assert(items[items.len() - 1] == last);
        assert forall|i: int| 0 <= i < less.len() implies #[trigger] less[i] == items[i] by {
        }
        if before.contains(row) {
            let i = choose|i: int| 0 <= i < before.len() && before[i] == row;
            assert(after[i] == row);
            let k = choose|k: int|
                0 <= k < less.len() && (#[trigger] less[k]).0 == place && home(homes, less[k].1)
                    == folder;
            assert(items[k] == less[k]);
        }
        if last.0 == place && home(homes, last.1) == folder {
            assert(after.last() == row);
            assert(after[before.len() as int] == row);
        }
        if after.contains(row) && !before.contains(row) {
            let i = choose|i: int| 0 <= i < after.len() && after[i] == row;
            if i < before.len() {
                assert(before[i] == row);
            }
            assert(after[i] == asset_row(kind, last.0));
        }
        if exists|i: int|
            0 <= i < items.len() && (#[trigger] items[i]).0 == place && home(homes, items[i].1)
                == folder {
            let i = choose|i: int|
                0 <= i < items.len() && (#[trigger] items[i]).0 == place && home(homes, items[i].1)
                    == folder;
            if i < less.len() {
                assert(less[i] == items[i]);
                assert(before.contains(row));
            }
        }
    } else {
        assert(after =~= Seq::empty());
    }
}

/// The menu of a file offers to do something to this file, and to convert or split it while that
/// can be done and is not under way; elsewhere the menu imports where there is a project on disk.
pub proof fn menus_act_on_their_file(
    index: usize,
    enabled: bool,
    transcribing: bool,
    splitting: bool,
    line: int,
)
    requires
        0 <= line < menu_lines(Some(index), enabled, transcribing, splitting).len(),
    ensures
        ({
            let (_, usable, _, action) = menu_lines(Some(index), enabled, transcribing, splitting)[line];
            &&& action == AssetMenuAction::ConvertToMidi(index) ==> (usable <==> enabled
                && !transcribing)
            &&& action == AssetMenuAction::StemSplitter(index) ==> (usable <==> enabled
                && !splitting)
            &&& action == AssetMenuAction::ConvertToMidi(index) || action
                == AssetMenuAction::StemSplitter(index) || usable
            &&& {
                ||| action == AssetMenuAction::AddToTimeline(index)
                ||| action == AssetMenuAction::Rename(index)
                ||| action == AssetMenuAction::SetBpm(index)
                ||| action == AssetMenuAction::ConvertToMidi(index)
                ||| action == AssetMenuAction::StemSplitter(index)
                ||| action == AssetMenuAction::Reveal(index)
                ||| action == AssetMenuAction::Delete(index)
            }
        }),
        menu_lines(Some(index), enabled, transcribing, splitting).len() == 7,
        menu_lines(None, enabled, transcribing, splitting).len() == 1,
        menu_lines(None, enabled, transcribing, splitting)[0].1 == enabled,
        menu_lines(None, enabled, transcribing, splitting)[0].3 == AssetMenuAction::Import,
{
}

/// Every folder has a row that says whether it is collapsed, and a collapsed one shows nothing
/// else.
pub proof fn folders_have_a_row_of_their_own(
    audio: Seq<(usize, u128)>,
    midi: Seq<(usize, u128)>,
    folders: Seq<AssetFolder>,
    collapsed: Set<u128>,
    count: nat,
)
    requires
        0 < count <= folders.len(),
    ensures
        ({
            let index = count - 1;
            let folder = folders[index].id;
            let before = folder_rows(audio, midi, folders, collapsed, index as nat);
            let after = folder_rows(audio, midi, folders, collapsed, count);
            let shut = collapsed.contains(folder);
            &&& after[before.len() as int] == (AssetBrowserRow::Folder {
                index: index as usize,
                collapsed: shut,
            })
            &&& after.take(before.len() as int) == before
            &&& shut ==> after.len() == before.len() + 1
            &&& !shut ==> after.skip((before.len() + 1) as int) == rows_in(
                audio,
                homes_of(folders, AssetKind::Audio),
                Some(folder),
                AssetKind::Audio,
            ) + rows_in(
                midi,
                homes_of(folders, AssetKind::Midi),
                Some(folder),
                AssetKind::Midi,
            )
        }),
        folder_rows(audio, midi, folders, collapsed, 0) == Seq::<AssetBrowserRow>::empty(),
{
    let index = count - 1;
    let folder = folders[index].id;
    let before = folder_rows(audio, midi, folders, collapsed, index as nat);
    let after = folder_rows(audio, midi, folders, collapsed, count);
    assert(after.take(before.len() as int) =~= before);
    if !collapsed.contains(folder) {
        assert(after.skip((before.len() + 1) as int) =~= rows_in(
            audio,
            homes_of(folders, AssetKind::Audio),
            Some(folder),
            AssetKind::Audio,
        ) + rows_in(midi, homes_of(folders, AssetKind::Midi), Some(folder), AssetKind::Midi));
    }
}

/// One channel is mono; any other number is called stereo.
pub proof fn one_channel_is_mono(channels: u16)
    ensures
        channels_text(1) == "MONO"@,
        channels != 1 ==> channels_text(channels) == "STEREO"@,
{
}

/// A conversion or a split that is under way says so in the menu.
pub proof fn menus_say_what_is_under_way(
    index: usize,
    enabled: bool,
    transcribing: bool,
    splitting: bool,
)
    ensures
        ({
            let lines = menu_lines(Some(index), enabled, transcribing, splitting);
            &&& transcribing ==> lines[3].0 == "CONVERTING TO MIDI…"@
            &&& !transcribing ==> lines[3].0 == "CONVERT TO MIDI"@
            &&& lines[3].3 == AssetMenuAction::ConvertToMidi(index)
            &&& splitting ==> lines[4].0 == "SPLITTING STEMS…"@
            &&& !splitting ==> lines[4].0 == "STEM SPLITTER…"@
            &&& lines[4].3 == AssetMenuAction::StemSplitter(index)
            &&& transcribing ==> lines[3].2 == "Basic Pitch is already converting this asset"@
            &&& splitting ==> lines[4].2 == "X-LANCE is already splitting this asset"@
        }),
{
}

} // verus!
