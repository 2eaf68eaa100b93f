//! The start screen: the list of projects, and the form for a new one.
use crate::asset_preview::text_view;
use crate::numbers::{fixed, push_fixed, Precision};
use crate::pages::greatest;
use crate::text::{
    all_ascii, ascii_lower, contains_text, control_code, decimal, is_letter_or_digit, joined,
    letter_or_digit, letters_of, lower, lower_letters, lower_of, lower_text, occurs_in,
    push_decimal, same_text, text_between, trim, trimmed, within,
};
use crate::transport::clamped;
use vstd::prelude::*;

verus! {

/// Milliseconds in a day.
pub const DAY_MILLIS: u64 = 86_400_000;

/// The sample rate that a new project has unless another is chosen.
pub const DEFAULT_SAMPLE_RATE: u32 = 48_000;

/// Whether a character of a project's name is kept in its folder's name.
pub open spec fn kept_in_folder(letter: char) -> bool {
    letter_or_digit(letter) || letter == '-' || letter == '_'
}

/// The words of a name in lower case, joined by dashes, and whether a gap follows the last.
pub open spec fn dashed(name: Seq<char>) -> (Seq<char>, bool)
    decreases name.len(),
{
    if name.len() == 0 {
        (Seq::empty(), false)
    } else {
        let (words, gap) = dashed(name.drop_last());
        let letter = name.last();
        if kept_in_folder(letter) {
            let start = if gap && words.len() > 0 {
                words.push('-')
            } else {
                words
            };
            (start + lower(letter), false)
        } else {
            (words, true)
        }
    }
}

/// The place of the first character that is no dash.
pub open spec fn dash_start(text: Seq<char>) -> int
    decreases text.len(),
{
    if text.len() == 0 || text[0] != '-' {
        0
    } else {
        1 + dash_start(text.skip(1))
    }
}

/// The place after the last character that is no dash.
pub open spec fn dash_end(text: Seq<char>) -> int
    decreases text.len(),
{
    if text.len() == 0 || text.last() != '-' {
        text.len() as int
    } else {
        dash_end(text.drop_last())
    }
}

/// A text without dashes at its ends.
pub open spec fn without_outer_dashes(text: Seq<char>) -> Seq<char> {
    if dash_start(text) < dash_end(text) {
        text.subrange(dash_start(text), dash_end(text))
    } else {
        Seq::empty()
    }
}

/// The folder that a project's name suggests.
pub open spec fn folder_for(name: Seq<char>) -> Seq<char> {
    without_outer_dashes(dashed(trimmed(name)).0)
}

proof fn lemma_dash_bounds(text: Seq<char>)
    ensures
        0 <= dash_start(text) <= text.len(),
        0 <= dash_end(text) <= text.len(),
        dash_start(text) < text.len() ==> text[dash_start(text)] != '-',
        dash_end(text) > 0 ==> text[dash_end(text) - 1] != '-',
    decreases text.len(),
{
    if text.len() > 0 {
        lemma_dash_bounds(text.skip(1));
        lemma_dash_bounds(text.drop_last());
    }
}

/// The folder that a project's name suggests: its words in lower case, joined by dashes.
pub fn project_folder_name(name: &str) -> (folder: String)
    ensures
        folder@ == folder_for(name@),
{
    let inner = trim(name);
    let letters = letters_of(inner.as_str());
    let mut words: Vec<char> = Vec::new();
    let mut gap = false;
    let mut index: usize = 0;
    while index < letters.len()
        invariant
            index <= letters.len(),
            (words@, gap) == dashed(letters@.take(index as int)),
        decreases letters.len() - index,
    {
        let letter = letters[index];
        assert(letters@.take(index + 1).drop_last() =~= letters@.take(index as int));
        if is_letter_or_digit(letter) || letter == '-' || letter == '_' {
            if gap && words.len() > 0 {
                words.push('-');
            }
            gap = false;
            let mut small = lower_letters(letter);
            words.append(&mut small);
        } else {
            gap = true;
        }
        index += 1;
    }
    assert(letters@.take(letters.len() as int) =~= letters@);
    proof {
        lemma_dash_bounds(words@);
        assert(words@.skip(0) =~= words@);
    }
    let mut start: usize = 0;
    while start < words.len() && words[start] == '-'
        invariant
            start <= words.len(),
            dash_start(words@) == start + dash_start(words@.skip(start as int)),
        decreases words.len() - start,
    {
        assert(words@.skip(start as int).skip(1) =~= words@.skip(start + 1));
        start += 1;
    }
    let mut end: usize = words.len();
    assert(words@.take(end as int) =~= words@);
    while end > 0 && words[end - 1] == '-'
        invariant
            end <= words.len(),
            dash_end(words@) == dash_end(words@.take(end as int)),
        decreases end,
    {
        assert(words@.take(end as int).drop_last() =~= words@.take(end - 1));
        end -= 1;
    }
    if start < end {
        text_between(&words, start, end)
    } else {
        String::new()
    }
}

/// Whether a character may stand in the folder that a name suggests: a dash, an underscore,
/// or a letter or digit in lower case.
pub open spec fn portable(letter: char) -> bool {
    letter == '-' || exists|source: char|
        kept_in_folder(source) && #[trigger] lower(source).contains(letter)
}

proof fn lemma_dashed_is_portable(name: Seq<char>, place: int)
    requires
        0 <= place < dashed(name).0.len(),
    ensures
        portable(dashed(name).0[place]),
    decreases name.len(),
{
    if name.len() > 0 {
        let (words, gap) = dashed(name.drop_last());
        let letter = name.last();
        if place < words.len() {
            lemma_dashed_is_portable(name.drop_last(), place);
        } else if kept_in_folder(letter) {
            let start = if gap && words.len() > 0 {
                words.push('-')
            } else {
                words
            };
            if place >= start.len() {
                assert(lower(letter)[place - start.len()] == dashed(name).0[place]);
                assert(lower(letter).contains(dashed(name).0[place]));
            }
        }
    }
}

/// A suggested folder holds nothing but dashes, underscores, and letters and digits in lower
/// case, and it neither starts nor ends with a dash.
pub proof fn suggested_folders_are_portable(name: Seq<char>)
    ensures
        forall|i: int| 0 <= i < folder_for(name).len() ==> portable(#[trigger] folder_for(name)[i]),
        folder_for(name).len() > 0 ==> folder_for(name)[0] != '-' && folder_for(name).last() != '-',
{
    let words = dashed(trimmed(name)).0;
    lemma_dash_bounds(words);
    assert forall|i: int| 0 <= i < folder_for(name).len() implies portable(
        #[trigger] folder_for(name)[i],
    ) by {
        lemma_dashed_is_portable(trimmed(name), dash_start(words) + i);
    }
}

/// A character that every file system takes in a name.
pub open spec fn plain(letter: char) -> bool {
    letter == '-' || letter == '_' || within(letter, '0', '9') || within(letter, 'a', 'z')
}

proof fn lemma_dashed_is_plain(name: Seq<char>, place: int)
    requires
        all_ascii(name),
        0 <= place < dashed(name).0.len(),
    ensures
        plain(dashed(name).0[place]),
    decreases name.len(),
{
    if name.len() > 0 {
        let (words, gap) = dashed(name.drop_last());
        let letter = name.last();
        if place < words.len() {
            lemma_dashed_is_plain(name.drop_last(), place);
        } else if kept_in_folder(letter) {
            let start = if gap && words.len() > 0 {
                words.push('-')
            } else {
                words
            };
            if place >= start.len() {
                assert(dashed(name).0[place] == ascii_lower(letter));
            }
        }
    }
}

/// A name in ASCII that suggests a folder at all suggests one that the form accepts, of plain
/// characters alone.
pub proof fn ascii_names_suggest_valid_folders(name: Seq<char>)
    requires
        all_ascii(name),
        folder_for(name).len() > 0,
    ensures
        valid_folder(folder_for(name)),
        forall|i: int| 0 <= i < folder_for(name).len() ==> plain(#[trigger] folder_for(name)[i]),
{
    let inner = trimmed(name);
    crate::text::trimmed_text_is_a_part(name);
    let words = dashed(inner).0;
    lemma_dash_bounds(words);
    assert forall|i: int| 0 <= i < folder_for(name).len() implies plain(
        #[trigger] folder_for(name)[i],
    ) by {
        lemma_dashed_is_plain(inner, dash_start(words) + i);
    }
    reveal_strlit(".");
    reveal_strlit("..");
    assert(plain(folder_for(name)[0]));
}

/// A tempo as it was entered.
#[derive(Clone, Copy, Debug, PartialEq, Eq, Structural)]
pub enum TempoInput {
    NotANumber,
    NotPositive,
    /// A tempo that can be used, as the bits of its number of beats per minute.
    Valid(u64),
}

/// Why a new project cannot be made.
#[derive(Clone, Copy, Debug, PartialEq, Eq, Structural)]
pub enum DraftError {
    NameMissing,
    FolderInvalid,
    TempoNotANumber,
    TempoNotPositive,
    DestinationExists,
}

/// The text of an error, where `destination` is the place of the project.
pub open spec fn draft_error_text(error: DraftError, destination: Seq<char>) -> Seq<char> {
    match error {
        DraftError::NameMissing => "Enter a project name"@,
        DraftError::FolderInvalid => "Enter a valid folder name without slashes"@,
        DraftError::TempoNotANumber => "Tempo must be a number"@,
        DraftError::TempoNotPositive => "Tempo must be greater than zero"@,
        DraftError::DestinationExists => destination + " already exists"@,
    }
}

impl DraftError {
    /// The text of the error, where `destination` is the place of the project.
    pub fn message(self, destination: &str) -> (message: String)
        ensures
            message@ == draft_error_text(self, destination@),
    {
        match self {
            DraftError::NameMissing => String::from_str("Enter a project name"),
            DraftError::FolderInvalid => String::from_str(
                "Enter a valid folder name without slashes",
            ),
            DraftError::TempoNotANumber => String::from_str("Tempo must be a number"),
            DraftError::TempoNotPositive => String::from_str("Tempo must be greater than zero"),
            DraftError::DestinationExists => joined(destination, " already exists"),
        }
    }
}

/// A project to make.
#[derive(Debug)]
pub struct NewProject {
    pub folder: String,
    pub name: String,
    pub tempo_bits: u64,
    pub sample_rate: u32,
}

/// The form for a new project.
#[derive(Debug)]
pub struct NewProjectDraft {
    pub name: String,
    pub parent: String,
    pub folder: String,
    /// The folder that was last suggested.
    pub automatic_folder: String,
    pub bpm: String,
    pub sample_rate: u32,
    pub error: Option<String>,
}

/// Whether a text names a folder, and nothing above or below it.
pub open spec fn valid_folder(folder: Seq<char>) -> bool {
    &&& folder.len() > 0
    &&& folder != "."@
    &&& folder != ".."@
    &&& forall|i: int|
        0 <= i < folder.len() ==> #[trigger] folder[i] != '/' && folder[i] != '\\' && !control_code(
            folder[i],
        )
}

/// Whether a text names a folder.
pub fn is_valid_folder(folder: &str) -> (valid: bool)
    ensures
        valid == valid_folder(folder@),
{
    let letters = letters_of(folder);
    if letters.len() == 0 || same_text(folder, ".") || same_text(folder, "..") {
        return false;
    }
    let mut index: usize = 0;
    while index < letters.len()
        invariant
            index <= letters.len(),
            letters@ == folder@,
            forall|i: int|
                0 <= i < index ==> #[trigger] letters@[i] != '/' && letters@[i] != '\\'
                    && !control_code(letters@[i]),
        decreases letters.len() - index,
    {
        let letter = letters[index];
        if letter == '/' || letter == '\\' || letter.is_control() {
            assert(folder@[index as int] == letter);
            return false;
        }
        index += 1;
    }
    true
}

impl NewProjectDraft {
    /// An empty form for a project below `parent`.
    pub fn new(parent: String) -> (draft: Self)
        ensures
            draft.name@ == Seq::<char>::empty(),
            draft.parent == parent,
            draft.folder@ == Seq::<char>::empty(),
            draft.automatic_folder@ == Seq::<char>::empty(),
            draft.bpm@ == "120"@,
            draft.sample_rate == DEFAULT_SAMPLE_RATE,
            draft.error is None,
    {
        NewProjectDraft {
            name: String::new(),
            parent,
            folder: String::new(),
            automatic_folder: String::new(),
            bpm: String::from_str("120"),
            sample_rate: DEFAULT_SAMPLE_RATE,
            error: None,
        }
    }

    /// Suggests a folder for the name, unless the user has entered another one.
    pub fn sync_folder(&mut self)
        ensures
            final(self).automatic_folder@ == folder_for(old(self).name@),
            final(self).folder@ == (if old(self).folder@.len() == 0 || old(self).folder@
                == old(self).automatic_folder@ {
                folder_for(old(self).name@)
            } else {
                old(self).folder@
            }),
            final(self).name == old(self).name,
            final(self).parent == old(self).parent,
            final(self).bpm == old(self).bpm,
            final(self).sample_rate == old(self).sample_rate,
            final(self).error == old(self).error,
    {
        let generated = project_folder_name(self.name.as_str());
        if self.folder.as_str().is_empty() || self.folder == self.automatic_folder {
            self.folder = generated.clone();
        }
        self.automatic_folder = generated;
    }

    /// The folder that the form names.
    pub fn folder_choice(&self) -> (folder: String)
        ensures
            folder@ == trimmed(self.folder@),
    {
        trim(self.folder.as_str())
    }

    /// The first thing that is wrong with the form, where `exists` says that its destination
    /// is taken.
    pub open spec fn flaw(self, tempo: TempoInput, exists: bool) -> Option<DraftError> {
        if trimmed(self.name@).len() == 0 {
            Some(DraftError::NameMissing)
        } else if !valid_folder(trimmed(self.folder@)) {
            Some(DraftError::FolderInvalid)
        } else if tempo == TempoInput::NotANumber {
            Some(DraftError::TempoNotANumber)
        } else if tempo == TempoInput::NotPositive {
            Some(DraftError::TempoNotPositive)
        } else if exists {
            Some(DraftError::DestinationExists)
        } else {
            None
        }
    }

    /// The project that the form describes, or what is wrong with it.
    pub fn validate(&self, tempo: TempoInput, exists: bool) -> (project: Result<
        NewProject,
        DraftError,
    >)
        ensures
            match self.flaw(tempo, exists) {
                Some(error) => project == Err::<NewProject, DraftError>(error),
                None => {
                    &&& project is Ok
                    &&& project->Ok_0.name@ == trimmed(self.name@)
                    &&& project->Ok_0.folder@ == trimmed(self.folder@)
                    &&& tempo == TempoInput::Valid(project->Ok_0.tempo_bits)
                    &&& project->Ok_0.sample_rate == self.sample_rate
                },
            },
    {
        let name = trim(self.name.as_str());
        if name.as_str().is_empty() {
            return Err(DraftError::NameMissing);
        }
        let folder = trim(self.folder.as_str());
        if !is_valid_folder(folder.as_str()) {
            return Err(DraftError::FolderInvalid);
        }
        match tempo {
            TempoInput::NotANumber => Err(DraftError::TempoNotANumber),
            TempoInput::NotPositive => Err(DraftError::TempoNotPositive),
            TempoInput::Valid(tempo_bits) => if exists {
                Err(DraftError::DestinationExists)
            } else {
                Ok(NewProject { folder, name, tempo_bits, sample_rate: self.sample_rate })
            },
        }
    }

    /// What the button of the form does: the form is done with and describes a project, or it
    /// says what is wrong with it. `destination` is the place of the project.
    pub fn submit(&mut self, tempo: TempoInput, exists: bool, destination: &str) -> (project:
        Option<NewProject>)
        ensures
            final(self).name == old(self).name,
            final(self).parent == old(self).parent,
            final(self).folder == old(self).folder,
            final(self).automatic_folder == old(self).automatic_folder,
            final(self).bpm == old(self).bpm,
            final(self).sample_rate == old(self).sample_rate,
            match old(self).flaw(tempo, exists) {
                Some(error) => {
                    &&& project is None
                    &&& text_view(final(self).error) == Some(
                        draft_error_text(error, destination@),
                    )
                },
                None => {
                    &&& project is Some
                    &&& project->0.name@ == trimmed(old(self).name@)
                    &&& project->0.folder@ == trimmed(old(self).folder@)
                    &&& tempo == TempoInput::Valid(project->0.tempo_bits)
                    &&& project->0.sample_rate == old(self).sample_rate
                    &&& final(self).error == old(self).error
                },
            },
    {
        match self.validate(tempo, exists) {
            Ok(project) => Some(project),
            Err(error) => {
                self.error = Some(error.message(destination));
                None
            },
        }
    }
}

/// When a project was last opened, in words.
pub open spec fn opened_text(timestamp: Option<u64>, now: u64) -> Seq<char> {
    match timestamp {
        None => "Never"@,
        Some(then) => {
            let days = if now >= then {
                (now - then) / DAY_MILLIS as int
            } else {
                0
            };
            if days == 0 {
                "Today"@
            } else if days == 1 {
                "Yesterday"@
            } else {
                decimal(days as nat) + "d ago"@
            }
        },
    }
}

/// When a project was last opened, in words.
pub fn last_opened_label(timestamp: Option<u64>, now: u64) -> (label: String)
    ensures
        label@ == opened_text(timestamp, now),
{
    match timestamp {
        None => String::from_str("Never"),
        Some(then) => {
            let days: u64 = now.saturating_sub(then) / DAY_MILLIS;
            if days == 0 {
                String::from_str("Today")
            } else if days == 1 {
                String::from_str("Yesterday")
            } else {
                let mut label = String::new();
                push_decimal(&mut label, days);
                label.append("d ago");
                assert(label@ =~= decimal(days as nat) + "d ago"@);
                label
            }
        },
    }
}

/// A sample rate in kilohertz: a whole number, or one with a tenth.
pub open spec fn rate_text(rate: int) -> Seq<char> {
    if rate % 1_000 == 0 {
        decimal((rate / 1_000) as nat) + " kHz"@
    } else {
        fixed(rate as nat, 1_000, 1, Precision::Double) + " kHz"@
    }
}

/// A sample rate in kilohertz.
pub fn format_sample_rate(rate: u32) -> (text: String)
    ensures
        text@ == rate_text(rate as int),
{
    let mut text = String::new();
    if rate % 1_000 == 0 {
        push_decimal(&mut text, (rate / 1_000) as u64);
    } else {
        push_fixed(&mut text, rate as u64, 1_000, 1, Precision::Double);
    }
    text.append(" kHz");
    assert(text@ =~= rate_text(rate as int));
    text
}

/// A tempo in thousandths of a beat per minute as text, with a digit after the point where it
/// is not a whole number.
pub open spec fn bpm_text(tempo: u32) -> Seq<char> {
    fixed(
        tempo as nat,
        1_000,
        if tempo % 1_000 == 0 {
            0
        } else {
            1
        },
        Precision::Double,
    )
}

/// The tempo of a project in the list, in thousandths of a beat per minute: a whole one
/// without a point, any other with one digit after it.
pub fn format_bpm(tempo: u32) -> (text: String)
    ensures
        text@ == bpm_text(tempo),
{
    let mut text = String::new();
    if tempo % 1_000 == 0 {
        push_fixed(&mut text, tempo as u64, 1_000, 0, Precision::Double);
    } else {
        push_fixed(&mut text, tempo as u64, 1_000, 1, Precision::Double);
    }
    assert(text@ =~= bpm_text(tempo));
    text
}

/// The state of a project on disk.
#[derive(Debug)]
pub enum ProjectStatus {
    Available,
    Missing,
    Invalid(String),
}

/// The word for the state of a project.
pub open spec fn status_text(status: ProjectStatus) -> Seq<char> {
    match status {
        ProjectStatus::Available => "FOUND"@,
        ProjectStatus::Missing => "MISSING"@,
        ProjectStatus::Invalid(_) => "CAN'T OPEN"@,
    }
}

impl ProjectStatus {
    /// The word for the state.
    pub fn label(&self) -> (label: &'static str)
        ensures
            label@ == status_text(*self),
    {
        match self {
            ProjectStatus::Available => "FOUND",
            ProjectStatus::Missing => "MISSING",
            ProjectStatus::Invalid(_) => "CAN'T OPEN",
        }
    }

    /// Whether the project can be opened.
    pub fn can_open(&self) -> (can: bool)
        ensures
            can == (*self is Available),
    {
        matches!(self, ProjectStatus::Available)
    }
}

/// Whether a project is listed under a search.
pub open spec fn is_listed(searchable: Seq<char>, search: Seq<char>) -> bool {
    let query = lower_of(trimmed(search));
    query.len() == 0 || occurs_in(searchable, query)
}

/// The places of the projects that a search lists, in order; `searchable` holds what can be
/// searched of each project.
pub fn visible_projects(searchable: &Vec<String>, search: &str) -> (visible: Vec<usize>)
    ensures
        forall|i: int, j: int| 0 <= i < j < visible.len() ==> visible[i] < visible[j],
        forall|i: int|
            0 <= i < visible.len() ==> #[trigger] visible[i] < searchable.len() && is_listed(
                searchable[visible[i] as int]@,
                search@,
            ),
        forall|place: int|
            0 <= place < searchable.len() && is_listed(#[trigger] searchable[place]@, search@)
                ==> visible@.contains(place as usize),
{
    let query = lower_text(trim(search).as_str());
    let everything = query.as_str().is_empty();
    let mut visible: Vec<usize> = Vec::new();
    let mut index: usize = 0;
    while index < searchable.len()
        invariant
            index <= searchable.len(),
            query@ == lower_of(trimmed(search@)),
            everything == (query@.len() == 0),
            forall|i: int, j: int| 0 <= i < j < visible.len() ==> visible[i] < visible[j],
            forall|i: int|
                0 <= i < visible.len() ==> #[trigger] visible[i] < index && is_listed(
                    searchable[visible[i] as int]@,
                    search@,
                ),
            forall|place: int|
                0 <= place < index && is_listed(#[trigger] searchable[place]@, search@)
                    ==> visible@.contains(place as usize),
        decreases searchable.len() - index,
    {
        let ghost before = visible@;
        if everything || contains_text(searchable[index].as_str(), query.as_str()) {
            visible.push(index);
            assert(visible@[before.len() as int] == index);
        }
        assert forall|place: int|
            0 <= place < index + 1 && is_listed(#[trigger] searchable[place]@, search@) implies
            visible@.contains(place as usize) by {
            if place < index {
                let i = choose|i: int| 0 <= i < before.len() && before[i] == place as usize;
                assert(visible@[i] == place as usize);
            }
        }
        index += 1;
    }
    visible
}

/// What the list says when it is empty.
pub fn empty_list_title(scanning: bool, search: &str) -> (title: &'static str)
    ensures
        title@ == (if scanning {
            "LOOKING FOR PROJECTS…"@
        } else if lower_of(trimmed(search@)).len() == 0 {
            "NO PROJECTS YET"@
        } else {
            "NO MATCHING PROJECTS"@
        }),
{
    if scanning {
        "LOOKING FOR PROJECTS…"
    } else if lower_text(trim(search).as_str()).as_str().is_empty() {
        "NO PROJECTS YET"
    } else {
        "NO MATCHING PROJECTS"
    }
}

/// A project of the list.
#[derive(Debug)]
pub struct ProjectEntry {
    pub path: String,
    pub name: String,
    pub project_id: Option<String>,
    pub tempo: Option<u32>,
    pub sample_rate: Option<u32>,
    pub last_opened: Option<u64>,
    /// The project lies in one of the locations that are searched.
    pub managed: bool,
    pub status: ProjectStatus,
}

/// The texts of a row of the list.
#[derive(Debug)]
pub struct ProjectCells {
    pub tempo: String,
    pub rate: String,
    pub last_opened: String,
    pub status: &'static str,
}

impl ProjectEntry {
    /// The texts of the row of the project. What is not known of it has a dash.
    pub fn project_row(&self, now: u64) -> (cells: ProjectCells)
        ensures
            cells.tempo@ == match self.tempo {
                Some(tempo) => bpm_text(tempo),
                None => "—"@,
            },
            cells.rate@ == match self.sample_rate {
                Some(rate) => rate_text(rate as int),
                None => "—"@,
            },
            cells.last_opened@ == opened_text(self.last_opened, now),
            cells.status@ == status_text(self.status),
    {
        ProjectCells {
            tempo: match self.tempo {
                Some(tempo) => format_bpm(tempo),
                None => String::from_str("—"),
            },
            rate: match self.sample_rate {
                Some(rate) => format_sample_rate(rate),
                None => String::from_str("—"),
            },
            last_opened: last_opened_label(self.last_opened, now),
            status: self.status.label(),
        }
    }

    /// What is said of the project below the list when it is selected.
    pub fn details(&self) -> (lines: (Option<String>, Option<String>))
        ensures
            text_view(lines.0) == match self.project_id {
                Some(id) => Some("PROJECT ID  "@ + id@),
                None => None,
            },
            text_view(lines.1) == match self.status {
                ProjectStatus::Invalid(error) => Some(error@),
                _ => None,
            },
    {
        let identity = match &self.project_id {
            Some(id) => Some(joined("PROJECT ID  ", id.as_str())),
            None => None,
        };
        let problem = match &self.status {
            ProjectStatus::Invalid(error) => Some(String::from_str(error.as_str())),
            _ => None,
        };
        (identity, problem)
    }

    /// Whether the project can be taken off the list: one that a search would find again
    /// cannot.
    pub fn can_be_forgotten(&self) -> (can: bool)
        ensures
            can == !self.managed,
    {
        !self.managed
    }
}

/// The widths of the columns of the list, in thousandths of a point.
#[derive(Clone, Copy, Debug, PartialEq, Eq, Structural)]
pub struct ProjectTableWidths {
    pub name: u64,
    pub location: u64,
    pub tempo: u64,
    pub rate: u64,
    pub last_opened: u64,
    pub status: u64,
}

/// What the columns with a fixed width take, and the gaps between all columns.
pub const FIXED_COLUMNS: u64 = 348_000;

/// The least that the other two columns share.
pub const LEAST_FLEXIBLE: u64 = 300_000;

impl ProjectTableWidths {
    /// What the names and the locations share.
    pub open spec fn flexible(width: u64) -> int {
        greatest(width - FIXED_COLUMNS, LEAST_FLEXIBLE as int)
    }

    /// The columns of a list of this width. Names take about a third of what the columns of a
    /// fixed width leave.
    pub fn new(width: u64) -> (widths: Self)
        ensures
            widths.name == clamped(Self::flexible(width) * 36 / 100, 150_000, 250_000),
            widths.location == greatest(Self::flexible(width) - widths.name, 150_000),
            widths.tempo == 65_000,
            widths.rate == 75_000,
            widths.last_opened == 95_000,
            widths.status == 78_000,
    {
        let flexible: u64 = if width >= FIXED_COLUMNS + LEAST_FLEXIBLE {
            width - FIXED_COLUMNS
        } else {
            LEAST_FLEXIBLE
        };
        let share: u128 = flexible as u128 * 36 / 100;
        let name: u64 = if share < 150_000 {
            150_000
        } else if share > 250_000 {
            250_000
        } else {
            share as u64
        };
        ProjectTableWidths {
            name,
            location: if flexible - name > 150_000 {
                flexible - name
            } else {
                150_000
            },
            tempo: 65_000,
            rate: 75_000,
            last_opened: 95_000,
            status: 78_000,
        }
    }
}

/// The columns of a list that is wide enough fill it, but for the gaps between them; a list
/// that is not is as wide as it must be.
pub proof fn columns_fill_the_list(width: u64, widths: ProjectTableWidths)
    requires
        widths.name == clamped(ProjectTableWidths::flexible(width) * 36 / 100, 150_000, 250_000),
        widths.location == greatest(ProjectTableWidths::flexible(width) - widths.name, 150_000),
        widths.tempo == 65_000,
        widths.rate == 75_000,
        widths.last_opened == 95_000,
        widths.status == 78_000,
    ensures
        widths.name + widths.location + widths.tempo + widths.rate + widths.last_opened
            + widths.status + 35_000 == greatest(
            width as int,
            (FIXED_COLUMNS + LEAST_FLEXIBLE) as int,
        ),
{
}

/// Whether a dropped file stands for the project in its folder.
pub fn is_project_file(name: &str) -> (project: bool)
    ensures
        project == (name@ == "project.json"@),
{
    same_text(name, "project.json")
}

/// Whether a location may be taken off the list: the last one may not.
pub fn may_remove_location(locations: usize) -> (may: bool)
    ensures
        may == (locations > 1),
{
    locations > 1
}

/// What came of a search for projects.
#[derive(Debug)]
pub enum ScanOutcome {
    Running,
    Disconnected,
    /// The paths of the projects, and what went wrong.
    Finished { paths: Vec<String>, warnings: Vec<String> },
}

/// What is heard of a project on its way to the editor.
#[derive(Debug)]
pub enum PendingNews {
    Waiting,
    /// The thread that brings it is gone.
    Stopped,
    /// The project could not be opened or made.
    Failed(String),
    /// The project was opened. The catalog may not remember it, and the editor may not take it.
    Opened { remembered: Result<(), String>, editor: Result<(), String> },
}

/// What the start screen shows.
#[derive(Clone, Copy, Debug, PartialEq, Eq, Structural)]
pub enum DesktopMode {
    Library,
    Opening,
    Creating,
    Editor,
}

impl DesktopMode {
    /// What a project that did not arrive is reported as.
    pub fn failure(self, path: &str, error: &str) -> (text: String)
        ensures
            text@ == (if self == DesktopMode::Creating {
                "Could not create "@
            } else {
                "Could not open "@
            }) + path@ + ": "@ + error@,
    {
        let mut text = String::from_str(
            if self == DesktopMode::Creating {
                "Could not create "
            } else {
                "Could not open "
            },
        );
        text.append(path);
        text.append(": ");
        text.append(error);
        text
    }

    /// What is shown while a project is on its way.
    pub fn pending_label(self) -> (label: Option<&'static str>)
        ensures
            label is Some <==> self == DesktopMode::Opening || self == DesktopMode::Creating,
            self == DesktopMode::Opening ==> label->0@ == "OPENING PROJECT"@,
            self == DesktopMode::Creating ==> label->0@ == "CREATING PROJECT"@,
    {
        match self {
            DesktopMode::Opening => Some("OPENING PROJECT"),
            DesktopMode::Creating => Some("CREATING PROJECT"),
            _ => None,
        }
    }
}

/// The start screen.
#[derive(Debug)]
pub struct Launcher {
    pub mode: DesktopMode,
    /// Projects are being looked for.
    pub scanning: bool,
    /// Another search was asked for meanwhile.
    pub rescan_requested: bool,
    pub selected: Option<String>,
    pub notice: Option<String>,
    pub error: Option<String>,
}

/// The start screen as a mathematical value.
#[verifier::ext_equal]
pub struct LauncherModel {
    pub mode: DesktopMode,
    pub scanning: bool,
    pub rescan_requested: bool,
    pub selected: Option<Seq<char>>,
    pub notice: Option<Seq<char>>,
    pub error: Option<Seq<char>>,
}

impl View for Launcher {
    type V = LauncherModel;

    open spec fn view(&self) -> LauncherModel {
        LauncherModel {
            mode: self.mode,
            scanning: self.scanning,
            rescan_requested: self.rescan_requested,
            selected: text_view(self.selected),
            notice: text_view(self.notice),
            error: text_view(self.error),
        }
    }
}

/// Lines, one below the other.
pub open spec fn lines_text(lines: Seq<String>) -> Seq<char>
    decreases lines.len(),
{
    if lines.len() == 0 {
        Seq::empty()
    } else if lines.len() == 1 {
        lines[0]@
    } else {
        lines_text(lines.drop_last()) + "\n"@ + lines.last()@
    }
}

/// Lines, one below the other.
pub fn join_lines(lines: &Vec<String>) -> (text: String)
    ensures
        text@ == lines_text(lines@),
{
    let mut text = String::new();
    let mut index: usize = 0;
    assert(lines@.take(0) =~= Seq::<String>::empty());
    assert(text@ =~= lines_text(lines@.take(0)));
    while index < lines.len()
        invariant
            index <= lines.len(),
            text@ == lines_text(lines@.take(index as int)),
        decreases lines.len() - index,
    {
        let ghost before = text@;
        assert(lines@.take(index + 1).drop_last() =~= lines@.take(index as int));
        if index > 0 {
            text.append("\n");
        }
        text.append(lines[index].as_str());
        assert(text@ =~= lines_text(lines@.take(index + 1)));
        index += 1;
    }
    assert(lines@.take(lines.len() as int) =~= lines@);
    text
}

/// Whether a path is among some paths.
pub open spec fn lists_path(paths: Seq<String>, path: Seq<char>) -> bool {
    exists|i: int| 0 <= i < paths.len() && (#[trigger] paths[i])@ == path
}

fn is_path_listed(paths: &Vec<String>, path: &String) -> (listed: bool)
    ensures
        listed == lists_path(paths@, path@),
{
    let mut index: usize = 0;
    while index < paths.len()
        invariant
            index <= paths.len(),
            forall|i: int| 0 <= i < index ==> (#[trigger] paths@[i])@ != path@,
        decreases paths.len() - index,
    {
        if paths[index] == *path {
            assert(paths@[index as int]@ == path@);
            return true;
        }
        index += 1;
    }
    false
}

impl LauncherModel {
    /// The start screen after a search was asked for.
    pub open spec fn asking(self) -> Self {
        if self.scanning {
            LauncherModel { rescan_requested: true, ..self }
        } else {
            LauncherModel { scanning: true, ..self }
        }
    }

    /// The start screen after it heard of its search.
    pub open spec fn hearing(self, outcome: ScanOutcome) -> Self {
        if !self.scanning {
            self
        } else {
            match outcome {
                ScanOutcome::Running => self,
                ScanOutcome::Disconnected => LauncherModel {
                    scanning: false,
                    error: Some("Project scan stopped unexpectedly"@),
                    ..self
                },
                ScanOutcome::Finished { paths, warnings } => LauncherModel {
                    scanning: false,
                    error: if warnings@.len() > 0 {
                        Some(lines_text(warnings@))
                    } else {
                        self.error
                    },
                    selected: if self.selected is Some && !lists_path(paths@, self.selected->0) {
                        None
                    } else {
                        self.selected
                    },
                    ..self
                },
            }
        }
    }

    /// The start screen after it heard of a project on its way.
    pub open spec fn settling(self, news: PendingNews) -> Self {
        if self.mode != DesktopMode::Opening && self.mode != DesktopMode::Creating {
            self
        } else {
            match news {
                PendingNews::Waiting => self,
                PendingNews::Stopped => (LauncherModel {
                    mode: DesktopMode::Library,
                    error: Some("Project operation stopped unexpectedly"@),
                    ..self
                }).asking(),
                PendingNews::Failed(message) => (LauncherModel {
                    mode: DesktopMode::Library,
                    error: Some(message@),
                    ..self
                }).asking(),
                PendingNews::Opened { remembered, editor } => {
                    let noted = LauncherModel {
                        notice: match remembered {
                            Ok(_) => self.notice,
                            Err(message) => Some(message@),
                        },
                        ..self
                    };
                    match editor {
                        Ok(_) => LauncherModel { mode: DesktopMode::Editor, ..noted },
                        Err(message) => (LauncherModel {
                            mode: DesktopMode::Library,
                            error: Some("Could not build the editor: "@ + message@),
                            ..noted
                        }).asking(),
                    }
                },
            }
        }
    }

    /// Whether a search that was put off is due.
    pub open spec fn rescan_due(self) -> bool {
        !self.scanning && self.rescan_requested
    }
}

impl Launcher {
    /// The list of projects, before any search.
    pub fn new(warning: Option<String>) -> (launcher: Self)
        ensures
            launcher@ == (LauncherModel {
                mode: DesktopMode::Library,
                scanning: false,
                rescan_requested: false,
                selected: None,
                notice: None,
                error: text_view(warning),
            }),
    {
        Launcher {
            mode: DesktopMode::Library,
            scanning: false,
            rescan_requested: false,
            selected: None,
            notice: None,
            error: warning,
        }
    }

    /// Asks for a search; `true` means that the caller is to start one. While one is running
    /// the next is put off.
    pub fn start_scan(&mut self) -> (start: bool)
        ensures
            start == !old(self)@.scanning,
            final(self)@ == old(self)@.asking(),
    {
        if self.scanning {
            self.rescan_requested = true;
            false
        } else {
            self.scanning = true;
            true
        }
    }

    /// Hears of the search; `true` means that the caller is to start the one that was put off.
    pub fn poll_scan(&mut self, outcome: ScanOutcome) -> (start: bool)
        ensures
            start == (old(self)@.scanning && old(self)@.hearing(outcome).rescan_due()),
            final(self)@ == (if start {
                (LauncherModel {
                    rescan_requested: false,
                    ..old(self)@.hearing(outcome)
                }).asking()
            } else {
                old(self)@.hearing(outcome)
            }),
    {
        if !self.scanning {
            return false;
        }
        match outcome {
            ScanOutcome::Running => {},
            ScanOutcome::Disconnected => {
                self.scanning = false;
                self.error = Some(String::from_str("Project scan stopped unexpectedly"));
            },
            ScanOutcome::Finished { paths, warnings } => {
                self.scanning = false;
                if warnings.len() > 0 {
                    self.error = Some(join_lines(&warnings));
                }
                let lost = match &self.selected {
                    Some(path) => !is_path_listed(&paths, path),
                    None => false,
                };
                if lost {
                    self.selected = None;
                }
            },
        }
        if !self.scanning && self.rescan_requested {
            self.rescan_requested = false;
            self.start_scan()
        } else {
            false
        }
    }

    /// Notes whether a project is being opened. An earlier error is taken back; the catalog
    /// may have something to say.
    pub fn begin_open(&mut self, remembered: Result<(), String>, spawned: Result<(), String>)
        ensures
            final(self)@ == (LauncherModel {
                mode: if spawned is Ok {
                    DesktopMode::Opening
                } else {
                    old(self)@.mode
                },
                notice: match remembered {
                    Ok(_) => old(self)@.notice,
                    Err(message) => Some(message@),
                },
                error: match spawned {
                    Ok(_) => None,
                    Err(message) => Some("Could not start project open: "@ + message@),
                },
                ..old(self)@
            }),
    {
        self.error = None;
        if let Err(message) = remembered {
            self.notice = Some(message);
        }
        match spawned {
            Ok(_) => {
                self.mode = DesktopMode::Opening;
            },
            Err(message) => {
                self.error = Some(joined("Could not start project open: ", message.as_str()));
            },
        }
    }

    /// Notes whether a project is being made. The form is done with in any case.
    pub fn begin_create(&mut self, spawned: Result<(), String>)
        ensures
            final(self)@ == (LauncherModel {
                mode: if spawned is Ok {
                    DesktopMode::Creating
                } else {
                    old(self)@.mode
                },
                error: match spawned {
                    Ok(_) => None,
                    Err(message) => Some("Could not start project creation: "@ + message@),
                },
                ..old(self)@
            }),
    {
        self.error = None;
        match spawned {
            Ok(_) => {
                self.mode = DesktopMode::Creating;
            },
            Err(message) => {
                self.error = Some(joined("Could not start project creation: ", message.as_str()));
            },
        }
    }

    /// Hears of a project on its way; `true` means that the caller is to search again.
    pub fn poll_pending(&mut self, news: PendingNews) -> (search: bool)
        ensures
            final(self)@ == old(self)@.settling(news),
            search == (!old(self)@.scanning && old(self)@.settling(news).scanning),
    {
        if self.mode != DesktopMode::Opening && self.mode != DesktopMode::Creating {
            return false;
        }
        match news {
            PendingNews::Waiting => false,
            PendingNews::Stopped => {
                self.mode = DesktopMode::Library;
                self.error = Some(String::from_str("Project operation stopped unexpectedly"));
                self.start_scan()
            },
            PendingNews::Failed(message) => {
                self.mode = DesktopMode::Library;
                self.error = Some(message);
                self.start_scan()
            },
            PendingNews::Opened { remembered, editor } => {
                if let Err(message) = remembered {
                    self.notice = Some(message);
                }
                match editor {
                    Ok(_) => {
                        self.mode = DesktopMode::Editor;
                        false
                    },
                    Err(message) => {
                        self.mode = DesktopMode::Library;
                        self.error = Some(
                            joined("Could not build the editor: ", message.as_str()),
                        );
                        self.start_scan()
                    },
                }
            },
        }
    }

    /// Selects a project of the list.
    pub fn select(&mut self, path: String)
        ensures
            final(self)@ == (LauncherModel { selected: Some(path@), ..old(self)@ }),
    {
        self.selected = Some(path);
    }

    /// The catalog has taken a project off the list, or could not; `true` means that the
    /// caller is to search again.
    pub fn forgotten(&mut self, result: Result<(), String>) -> (search: bool)
        ensures
            search == (result is Ok && !old(self)@.scanning),
            final(self)@ == (match result {
                Ok(_) => LauncherModel {
                    notice: Some("Removed from the list. Project files were not deleted."@),
                    ..(LauncherModel { selected: None, ..old(self)@ }).asking()
                },
                Err(message) => LauncherModel { error: Some(message@), ..old(self)@ },
            }),
    {
        match result {
            Ok(_) => {
                self.selected = None;
                let search = self.start_scan();
                self.notice = Some(
                    String::from_str("Removed from the list. Project files were not deleted."),
                );
                search
            },
            Err(message) => {
                self.error = Some(message);
                false
            },
        }
    }

    /// The catalog has taken or given up a location, or could not; `true` means that the
    /// caller is to search again.
    pub fn location_changed(&mut self, result: Result<(), String>) -> (search: bool)
        ensures
            search == (result is Ok && !old(self)@.scanning),
            final(self)@ == (match result {
                Ok(_) => old(self)@.asking(),
                Err(message) => LauncherModel { error: Some(message@), ..old(self)@ },
            }),
    {
        match result {
            Ok(_) => self.start_scan(),
            Err(message) => {
                self.error = Some(message);
                false
            },
        }
    }

    /// What the list shows above the projects: an error where there is one, else a notice.
    pub fn banner(&self) -> (text: Option<String>)
        ensures
            text_view(text) == (match self@.error {
                Some(message) => Some(message),
                None => self@.notice,
            }),
    {
        match (&self.error, &self.notice) {
            (Some(message), _) => Some(message.clone()),
            (None, Some(message)) => Some(message.clone()),
            (None, None) => None,
        }
    }
}

/// A search that was asked for is never forgotten: it runs, or it is put off until the one
/// under way ends, and starts then.
pub proof fn searches_are_never_forgotten(launcher: LauncherModel, outcome: ScanOutcome)
    requires
        launcher.scanning,
        outcome !is Running,
    ensures
        launcher.asking().hearing(outcome).rescan_due(),
        (LauncherModel {
            rescan_requested: false,
            ..launcher.asking().hearing(outcome)
        }).asking().scanning,
{
}

/// A word of small letters and digits of the English alphabet is its own folder, and two of them
/// with anything between that no folder keeps are joined by one dash.
pub proof fn words_are_joined_by_one_dash(front: Seq<char>, gap: Seq<char>, back: Seq<char>)
    requires
        front.len() > 0,
        gap.len() > 0,
        back.len() > 0,
        forall|i: int| 0 <= i < front.len() ==> within(#[trigger] front[i], 'a', 'z') || within(
            front[i],
            '0',
            '9',
        ),
        forall|i: int| 0 <= i < back.len() ==> within(#[trigger] back[i], 'a', 'z') || within(
            back[i],
            '0',
            '9',
        ),
        forall|i: int| 0 <= i < gap.len() ==> !kept_in_folder(#[trigger] gap[i]),
    ensures
        folder_for(front) == front,
        folder_for(front + gap + back) == front + seq!['-'] + back,
{
    lemma_words_stay(Seq::empty(), false, Seq::empty(), front);
    assert(Seq::<char>::empty() + front =~= front);
    lemma_gap_counts(front, gap);
    let all = front + gap + back;
    lemma_words_stay(front, true, front + gap, back);
    assert(front + gap + back =~= (front + gap) + back);
    assert(front + seq!['-'] + back =~= front.push('-') + back);
    lemma_ends_stay(front);
    lemma_ends_stay(all);
    lemma_dashes_stay(front);
    lemma_dashes_stay(front + seq!['-'] + back);
}

proof fn lemma_words_stay(words: Seq<char>, gap: bool, before: Seq<char>, name: Seq<char>)
    requires
        dashed(before) == (words, gap),
        name.len() > 0,
        forall|i: int| 0 <= i < name.len() ==> within(#[trigger] name[i], 'a', 'z') || within(
            name[i],
            '0',
            '9',
        ),
    ensures
        dashed(before + name) == (
            if gap && words.len() > 0 {
                words.push('-') + name
            } else {
                words + name
            },
            false,
        ),
    decreases name.len(),
{
    let all = before + name;
    let less = name.drop_last();
    let letter = name.last();
    assert(within(name[name.len() - 1], 'a', 'z') || within(name[name.len() - 1], '0', '9'));
    assert(crate::text::ascii(letter));
    assert(lower(letter) =~= seq![letter]);
    assert(kept_in_folder(letter));
    assert(all.drop_last() =~= before + less);
    assert(all.last() == letter);
    if less.len() > 0 {
        assert forall|i: int| 0 <= i < less.len() implies within(
            #[trigger] less[i],
            'a',
            'z',
        ) || within(less[i], '0', '9') by {
            assert(name[i] == less[i]);
        }
        lemma_words_stay(words, gap, before, less);
        assert(words.push('-') + less + seq![letter] =~= words.push('-') + name);
        assert(words + less + seq![letter] =~= words + name);
    } else {
        assert(before + less =~= before);
        assert(name =~= seq![letter]);
    }
}

proof fn lemma_gap_counts(front: Seq<char>, gap: Seq<char>)
    requires
        gap.len() > 0,
        dashed(front).0 == front,
        forall|i: int| 0 <= i < gap.len() ==> !kept_in_folder(#[trigger] gap[i]),
    ensures
        dashed(front + gap) == (front, true),
    decreases gap.len(),
{
    let all = front + gap;
    let less = gap.drop_last();
    assert(all.drop_last() =~= front + less);
    assert(all.last() == gap[gap.len() - 1]);
    if less.len() > 0 {
        assert forall|i: int| 0 <= i < less.len() implies !kept_in_folder(#[trigger] less[i]) by {
            assert(gap[i] == less[i]);
        }
        lemma_gap_counts(front, less);
    } else {
        assert(front + less =~= front);
    }
}

proof fn lemma_ends_stay(text: Seq<char>)
    requires
        text.len() > 0,
        within(text[0], 'a', 'z') || within(text[0], '0', '9'),
        within(text.last(), 'a', 'z') || within(text.last(), '0', '9'),
    ensures
        trimmed(text) == text,
{
    assert(!crate::text::blank(text[0]));
    assert(!crate::text::blank(text.last()));
    assert(crate::text::trim_start(text) == 0);
    assert(crate::text::trim_end(text) == text.len());
    assert(text.subrange(0, text.len() as int) =~= text);
}

proof fn lemma_dashes_stay(text: Seq<char>)
    requires
        text.len() > 0,
        text[0] != '-',
        text.last() != '-',
    ensures
        without_outer_dashes(text) == text,
{
    assert(dash_start(text) == 0);
    assert(dash_end(text) == text.len());
    assert(text.subrange(0, text.len() as int) =~= text);
}

/// A draft can become a project exactly if it has a name, a folder that is one, a tempo above
/// zero, and a place that is not taken; otherwise the first of these that it lacks is told.
pub proof fn drafts_lack_what_is_told(draft: NewProjectDraft, tempo: TempoInput, exists: bool)
    ensures
        ({
            let flaw = draft.flaw(tempo, exists);
            let named = trimmed(draft.name@).len() > 0;
            let placed = valid_folder(trimmed(draft.folder@));
            &&& flaw is None <==> named && placed && tempo is Valid && !exists
            &&& flaw == Some(DraftError::NameMissing) <==> !named
            &&& flaw == Some(DraftError::FolderInvalid) <==> named && !placed
            &&& flaw == Some(DraftError::TempoNotANumber) <==> named && placed && tempo
                is NotANumber
            &&& flaw == Some(DraftError::TempoNotPositive) <==> named && placed && tempo
                is NotPositive
            &&& flaw == Some(DraftError::DestinationExists) <==> named && placed && tempo is Valid
                && exists
        }),
{
}

/// A folder is a single name: nothing with a slash of either kind in it, and neither this folder
/// nor the one above.
pub proof fn folders_are_single_names(front: Seq<char>, back: Seq<char>)
    ensures
        !valid_folder(front + seq!['/'] + back),
        !valid_folder(front + seq!['\\'] + back),
        !valid_folder(seq!['.']),
        !valid_folder(seq!['.', '.']),
        !valid_folder(Seq::empty()),
{
    let slashed = front + seq!['/'] + back;
    assert(slashed[front.len() as int] == '/');
    let other = front + seq!['\\'] + back;
    assert(other[front.len() as int] == '\\');
    reveal_strlit(".");
    reveal_strlit("..");
    assert(seq!['.'] =~= "."@);
    assert(seq!['.', '.'] =~= ".."@);
}

/// When a project was opened is told in whole days, of 24 hours each, counted back from now.
pub proof fn openings_are_told_in_days(then: u64, now: u64, days: nat)
    requires
        86_400_000 * days <= now - then < 86_400_000 * (days + 1),
    ensures
        days == 0 ==> opened_text(Some(then), now) == "Today"@,
        days == 1 ==> opened_text(Some(then), now) == "Yesterday"@,
        days > 1 ==> opened_text(Some(then), now) == decimal(days) + "d ago"@,
        opened_text(None, now) == "Never"@,
{
    assert((now - then) / 86_400_000 == days);
}

/// A rate of whole kilohertz is shown as these.
pub proof fn whole_rates_are_shown_whole(kilohertz: nat)
    ensures
        rate_text((1_000 * kilohertz) as int) == decimal(kilohertz) + " kHz"@,
{
}

/// An empty search lists everything; any other lists what has in it what was typed.
pub proof fn searches_list_what_was_typed(front: Seq<char>, search: Seq<char>, back: Seq<char>)
    requires
        trimmed(search) == search,
        lower_of(search) == search,
    ensures
        is_listed(front + search + back, search),
        search.len() > 0 ==> (is_listed(front, search) <==> occurs_in(front, search)),
        search.len() == 0 ==> is_listed(front, search),
{
    crate::text::parts_occur_where_they_are_put(front, search, back);
}

/// Lines are put under one another.
pub proof fn lines_stand_under_one_another(lines: Seq<String>, line: String)
    ensures
        lines_text(Seq::empty()) == Seq::<char>::empty(),
        lines_text(seq![line]) == line@,
        lines.len() > 0 ==> lines_text(lines.push(line)) == lines_text(lines) + "\n"@ + line@,
{
    assert(lines.push(line).drop_last() =~= lines);
}

/// A search that is asked for starts at once, or is remembered while another goes on; one that
/// ends tells what went wrong and lets go of a selection that it did not find.
pub proof fn searches_start_and_end(
    launcher: LauncherModel,
    paths: Vec<String>,
    warnings: Vec<String>,
)
    requires
        launcher.scanning,
    ensures
        ({
            let asked = launcher.asking();
            let idle = LauncherModel { scanning: false, ..launcher };
            let ended = launcher.hearing(ScanOutcome::Finished { paths, warnings });
            let broken = launcher.hearing(ScanOutcome::Disconnected);
            &&& asked.scanning && asked.rescan_requested && asked.mode == launcher.mode
            &&& idle.asking().scanning && idle.asking().rescan_requested
                == launcher.rescan_requested
            &&& !ended.scanning && ended.mode == launcher.mode
            &&& warnings@.len() == 0 ==> ended.error == launcher.error
            &&& warnings@.len() > 0 ==> ended.error == Some(lines_text(warnings@))
            &&& launcher.selected matches Some(path) ==> if exists|i: int|
                0 <= i < paths@.len() && (#[trigger] paths@[i])@ == path {
                ended.selected == Some(path)
            } else {
                ended.selected is None
            }
            &&& launcher.selected is None ==> ended.selected is None
            &&& !broken.scanning && broken.error is Some
            &&& launcher.hearing(ScanOutcome::Running) == launcher
            &&& ended.rescan_due() <==> launcher.rescan_requested
        }),
{
}

/// A project that was opened is shown in the editor; where it was not, the library is shown again
/// with the reason, and the projects are looked for anew.
pub proof fn openings_lead_to_the_editor_or_back(
    launcher: LauncherModel,
    remembered: Result<(), String>,
    editor: Result<(), String>,
    message: String,
)
    requires
        launcher.mode == DesktopMode::Opening || launcher.mode == DesktopMode::Creating,
    ensures
        ({
            let opened = launcher.settling(PendingNews::Opened { remembered, editor });
            let failed = launcher.settling(PendingNews::Failed(message));
            let stopped = launcher.settling(PendingNews::Stopped);
            &&& editor is Ok ==> opened.mode == DesktopMode::Editor && opened.error
                == launcher.error && opened.scanning == launcher.scanning
            &&& editor is Err ==> opened.mode == DesktopMode::Library && opened.error is Some
                && opened.scanning
            &&& remembered is Ok ==> opened.notice == launcher.notice
            &&& remembered matches Err(warning) ==> opened.notice == Some(warning@)
            &&& failed.mode == DesktopMode::Library && failed.error == Some(message@)
                && failed.scanning
            &&& stopped.mode == DesktopMode::Library && stopped.error is Some && stopped.scanning
            &&& launcher.settling(PendingNews::Waiting) == launcher
        }),
{
}

/// Dashes around a folder are left out, those within it stay.
pub proof fn outer_dashes_are_left_out(text: Seq<char>)
    requires
        text.len() > 0,
        text[0] != '-',
        text.last() != '-',
    ensures
        without_outer_dashes(text) == text,
        without_outer_dashes(seq!['-'] + text) == text,
        without_outer_dashes(text.push('-')) == text,
        without_outer_dashes(seq!['-']) == Seq::<char>::empty(),
{
    lemma_dashes_stay(text);
    let front = seq!['-'] + text;
    assert(front.skip(1) =~= text);
    assert(dash_start(text) == 0);
    assert(dash_start(front) == 1);
    assert(front.last() == text.last());
    assert(dash_end(front) == front.len());
    assert(front.subrange(1, front.len() as int) =~= text);
    let back = text.push('-');
    assert(back.drop_last() =~= text);
    assert(back[0] == text[0]);
    assert(dash_start(back) == 0);
    assert(dash_end(text) == text.len());
    assert(dash_end(back) == text.len());
    assert(back.subrange(0, text.len() as int) =~= text);
    let dash = seq!['-'];
    assert(dash.drop_last() =~= Seq::empty());
    assert(dash_end(dash) == 0) by {
        assert(dash.last() == '-');
        assert(dash_end(dash.drop_last()) == 0);
    }
    assert(dash.skip(1) =~= Seq::empty());
    assert(dash_start(dash) == 1) by {
        assert(dash_start(dash.skip(1)) == 0);
    }
}

} // verus!
