//! Which files of a project tree count towards its fingerprint.
//!
//! The tree is walked with a stack of directories. Caches, media and presets are
//! passed over; only `.json` files count.
use crate::text::{ends_with, has_suffix, same_text};
use vstd::prelude::*;

verus! {

/// Entries of the tree that a walk visits at most.
pub const WATCH_MAX_ENTRIES: usize = 4_096;

/// Directories between the root and an entry, at most.
pub const WATCH_MAX_DEPTH: usize = 12;

/// What an entry is.
#[derive(Clone, Copy, Debug, PartialEq, Eq, Structural)]
pub enum EntryKind {
    Directory,
    File,
    Other,
}

/// What is done with an entry.
#[derive(Clone, Copy, Debug, PartialEq, Eq, Structural)]
pub enum EntryAction {
    Skip,
    Descend,
    Fingerprint,
}

/// Why a walk gave up.
#[derive(Clone, Copy, Debug, PartialEq, Eq, Structural)]
pub enum WalkError {
    TooDeep,
    TooManyEntries,
}

impl WalkError {
    /// The text of the error.
    pub fn message(self) -> (message: &'static str)
        ensures
            message@ == (match self {
                WalkError::TooDeep => "canonical tree is too deep to watch"@,
                WalkError::TooManyEntries => "canonical tree exceeds watcher entry limit"@,
            }),
    {
        match self {
            WalkError::TooDeep => "canonical tree is too deep to watch",
            WalkError::TooManyEntries => "canonical tree exceeds watcher entry limit",
        }
    }
}

/// The names on the way from the root to an entry.
pub open spec fn path_view(path: Seq<String>) -> Seq<Seq<char>> {
    path.map_values(|name: String| name@)
}

/// Whether an entry lies in a part of the tree that is not watched.
pub open spec fn unwatched(path: Seq<Seq<char>>) -> bool {
    ||| path.len() >= 1 && path[0] == ".gaw"@
    ||| path.len() >= 2 && path[0] == "assets"@ && path[1] == "media"@
    ||| path.len() >= 1 && path[0] == "presets"@
}

/// Whether a file name has the extension `json`: a dot, those letters, and something
/// before the dot.
pub open spec fn json_name(name: Seq<char>) -> bool {
    has_suffix(name, ".json"@) && name.len() > ".json"@.len()
}

/// What is done with an entry at `path`.
pub open spec fn entry_action(path: Seq<Seq<char>>, kind: EntryKind) -> EntryAction {
    if unwatched(path) {
        EntryAction::Skip
    } else if kind == EntryKind::Directory {
        EntryAction::Descend
    } else if kind == EntryKind::File && path.len() > 0 && json_name(path.last()) {
        EntryAction::Fingerprint
    } else {
        EntryAction::Skip
    }
}

/// Whether a file name has the extension `json`.
pub fn is_json_name(name: &str) -> (json: bool)
    ensures
        json == json_name(name@),
{
    assert(name@.subrange(0, name@.len() as int) =~= name@);
    ends_with(name, ".json") && !same_text(name, ".json")
}

/// Decides what is done with an entry.
pub fn classify_entry(path: &Vec<String>, kind: EntryKind) -> (action: EntryAction)
    ensures
        action == entry_action(path_view(path@), kind),
{
    let ghost names = path_view(path@);
    let length: usize = path.len();
    assert(names.len() == length);
    assert(forall|i: int| 0 <= i < length ==> #[trigger] names[i] == path@[i]@);
    if length == 0 {
        return if kind == EntryKind::Directory {
            EntryAction::Descend
        } else {
            EntryAction::Skip
        };
    }
    let first = path[0].as_str();
    let hidden = same_text(first, ".gaw") || same_text(first, "presets") || (length >= 2
        && same_text(first, "assets") && same_text(path[1].as_str(), "media"));
    if hidden {
        EntryAction::Skip
    } else if kind == EntryKind::Directory {
        EntryAction::Descend
    } else if kind == EntryKind::File && is_json_name(path[length - 1].as_str()) {
        EntryAction::Fingerprint
    } else {
        EntryAction::Skip
    }
}

/// A directory that waits to be read.
#[derive(Debug)]
pub struct PendingDirectory {
    pub path: Vec<String>,
    pub depth: usize,
}

/// A walk through the tree.
#[derive(Debug)]
pub struct TreeWalk {
    pub pending: Vec<PendingDirectory>,
    pub entries: usize,
}

impl TreeWalk {
    /// The walk has not visited more entries than allowed, and no directory waits
    /// deeper than one step below the limit.
    pub open spec fn within_limits(self) -> bool {
        &&& self.entries <= WATCH_MAX_ENTRIES
        &&& forall|i: int|
            0 <= i < self.pending.len() ==> (#[trigger] self.pending[i]).depth <= WATCH_MAX_DEPTH
                + 1
    }

    /// A walk that starts at the root.
    pub fn new() -> (walk: Self)
        ensures
            walk.entries == 0,
            walk.pending.len() == 1,
            walk.pending[0].path.len() == 0,
            walk.pending[0].depth == 0,
            walk.within_limits(),
    {
        let mut pending: Vec<PendingDirectory> = Vec::new();
        pending.push(PendingDirectory { path: Vec::new(), depth: 0 });
        TreeWalk { pending, entries: 0 }
    }

    /// The directory to read next: the one that was found last. `None` ends the walk.
    pub fn next_directory(&mut self) -> (next: Result<Option<PendingDirectory>, WalkError>)
        requires
            old(self).within_limits(),
        ensures
            final(self).within_limits(),
            final(self).entries == old(self).entries,
            old(self).pending.len() == 0 ==> next == Ok::<
                Option<PendingDirectory>,
                WalkError,
            >(None) && final(self).pending@ == old(self).pending@,
            old(self).pending.len() > 0 ==> final(self).pending@
                == old(self).pending@.drop_last() && next == (if old(
                self,
            ).pending@.last().depth > WATCH_MAX_DEPTH {
                Err(WalkError::TooDeep)
            } else {
                Ok(Some(old(self).pending@.last()))
            }),
    {
        match self.pending.pop() {
            None => Ok(None),
            Some(directory) => if directory.depth > WATCH_MAX_DEPTH {
                Err(WalkError::TooDeep)
            } else {
                Ok(Some(directory))
            },
        }
    }

    /// Visits an entry of the directory that was read at `depth`. A directory that is
    /// watched waits to be read one step deeper.
    pub fn visit(&mut self, path: Vec<String>, depth: usize, kind: EntryKind) -> (action: Result<
        EntryAction,
        WalkError,
    >)
        requires
            old(self).within_limits(),
            depth <= WATCH_MAX_DEPTH,
        ensures
            match action {
                Err(error) => error == WalkError::TooManyEntries && old(self).entries
                    == WATCH_MAX_ENTRIES && *final(self) == *old(self),
                Ok(action) => {
                    &&& old(self).entries < WATCH_MAX_ENTRIES
                    &&& final(self).entries == old(self).entries + 1
                    &&& action == entry_action(path_view(path@), kind)
                    &&& final(self).pending@ == (if action == EntryAction::Descend {
                        old(self).pending@.push(
                            (PendingDirectory { path, depth: (depth + 1) as usize }),
                        )
                    } else {
                        old(self).pending@
                    })
                    &&& final(self).within_limits()
                },
            },
    {
        if self.entries >= WATCH_MAX_ENTRIES {
            return Err(WalkError::TooManyEntries);
        }
        self.entries = self.entries + 1;
        let action = classify_entry(&path, kind);
        if action == EntryAction::Descend {
            self.pending.push(PendingDirectory { path, depth: depth + 1 });
        }
        Ok(action)
    }
}

/// Only the project's own descriptions are watched: nothing below the hidden folder of the
/// program, the media or the presets; any other folder is looked into, and of the files those
/// that end in `.json`.
pub proof fn only_descriptions_are_watched(
    rest: Seq<Seq<char>>,
    folder: Seq<char>,
    front: Seq<char>,
    kind: EntryKind,
)
    requires
        front.len() > 0,
    ensures
        entry_action(seq![".gaw"@] + rest, kind) is Skip,
        entry_action(seq!["presets"@] + rest, kind) is Skip,
        entry_action(seq!["assets"@, "media"@] + rest, kind) is Skip,
        entry_action(rest, EntryKind::Other) is Skip,
        ({
            let path = rest.push(front + ".json"@);
            !unwatched(path) ==> entry_action(path, EntryKind::File) is Fingerprint
        }),
        !unwatched(rest) ==> entry_action(rest, EntryKind::Directory) is Descend,
        folder != ".gaw"@ && folder != "presets"@ && folder != "assets"@ ==> !unwatched(
            seq![folder] + rest,
        ),
        entry_action(seq![folder], EntryKind::File) is Fingerprint ==> folder.skip(
            folder.len() - 5,
        ) == ".json"@ && folder.len() > 5,
{
    reveal_strlit(".json");
    let name = front + ".json"@;
    assert(name.subrange(name.len() - ".json"@.len(), name.len() as int) =~= ".json"@);
    assert(rest.push(name).last() == name);
    assert((seq![".gaw"@] + rest)[0] == ".gaw"@);
    assert((seq!["presets"@] + rest)[0] == "presets"@);
    assert((seq!["assets"@, "media"@] + rest)[0] == "assets"@);
    assert((seq!["assets"@, "media"@] + rest)[1] == "media"@);
    assert((seq![folder] + rest)[0] == folder);
    if json_name(folder) {
        assert(folder.skip(folder.len() - 5) =~= folder.subrange(
            folder.len() - 5,
            folder.len() as int,
        ));
    }
}

} // verus!
