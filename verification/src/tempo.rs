//! The tempo of an audio file: what was detected, how it is divided into sections, and
//! which parts of the file become files of their own.
//!
//! Tempos are counted in thousandths of a beat per minute, times in nanoseconds.
use crate::asset_preview::nearest_frame;
use crate::numbers::{fixed, push_fixed, Precision};
use crate::pages::{greatest, least};
use crate::persist::MediaRegion;
use crate::status::{plural, plural_suffix};
use crate::text::{decimal, push_decimal};
use vstd::prelude::*;

verus! {

/// Tempos this close are the same tempo.
pub const MATCH_TOLERANCE: u32 = 100;

/// What a part of a file takes with it on both sides.
pub const REGION_PADDING: u64 = 2_000_000_000;

/// The least length that moving a boundary leaves to a section.
pub const SHORTEST_SECTION: u64 = 1_000_000_000;

/// How a clip follows the tempo of the project.
#[derive(Clone, Copy, Debug, PartialEq, Eq, Structural)]
pub enum TempoSync {
    /// The audio plays as it was recorded.
    Original,
    /// The audio keeps its pitch.
    Stretch,
    /// The pitch changes with the speed.
    Repitch,
}

/// What becomes of a file that is dropped onto the arrangement.
#[derive(Clone, Copy, Debug, PartialEq, Eq, Structural)]
pub enum DropTempoDecision {
    /// Ask the user; the file has this tempo.
    Prompt(u32),
    Apply(TempoSync),
}

/// Whether two tempos differ by more than measuring does.
pub open spec fn differs(asset: int, project: int) -> bool {
    asset - project > MATCH_TOLERANCE || project - asset > MATCH_TOLERANCE
}

/// Whether two tempos differ by more than measuring does.
pub fn tempo_mismatch(asset: u32, project: u32) -> (mismatch: bool)
    ensures
        mismatch == differs(asset as int, project as int),
{
    let distance: u32 = if asset >= project {
        asset - project
    } else {
        project - asset
    };
    distance > MATCH_TOLERANCE
}

/// What becomes of a dropped file with this tempo, if it has one.
pub open spec fn decided(asset: Option<u32>, project: u32) -> DropTempoDecision {
    match asset {
        Some(tempo) => if differs(tempo as int, project as int) {
            DropTempoDecision::Prompt(tempo)
        } else {
            DropTempoDecision::Apply(TempoSync::Stretch)
        },
        None => DropTempoDecision::Apply(TempoSync::Original),
    }
}

/// What becomes of a dropped file: the user is asked only about a known tempo that differs.
pub fn drop_tempo_decision(asset: Option<u32>, project: u32) -> (decision: DropTempoDecision)
    ensures
        decision == decided(asset, project),
{
    match asset {
        Some(tempo) => if tempo_mismatch(tempo, project) {
            DropTempoDecision::Prompt(tempo)
        } else {
            DropTempoDecision::Apply(TempoSync::Stretch)
        },
        None => DropTempoDecision::Apply(TempoSync::Original),
    }
}

/// A tempo in beats per minute.
pub open spec fn tempo_text(tempo: nat, digits: nat) -> Seq<char> {
    fixed(tempo, 1_000, digits, Precision::Single)
}

/// A tempo in beats per minute, with up to three digits after the point.
pub fn format_tempo(tempo: u32, digits: u64) -> (text: String)
    requires
        digits <= 3,
    ensures
        text@ == tempo_text(tempo as nat, digits as nat),
{
    let mut text = String::new();
    push_fixed(&mut text, tempo as u64, 1_000, digits, Precision::Single);
    assert(text@ =~= tempo_text(tempo as nat, digits as nat));
    text
}

/// A tempo that was measured.
#[derive(Clone, Copy, Debug, PartialEq, Eq, Structural)]
pub struct Tempo {
    pub value: u32,
    /// A project can hold it.
    pub accepted: bool,
}

/// A detected tempo, with the tempos it is easily taken for.
#[derive(Clone, Copy, Debug, PartialEq, Eq, Structural)]
pub struct BpmDetection {
    pub bpm: Tempo,
    pub half: Option<Tempo>,
    pub double: Option<Tempo>,
    /// In percent.
    pub confidence: u32,
    /// In percent.
    pub runner_up_confidence: u32,
}

/// The candidates of a detection, in the order in which they are offered.
pub open spec fn candidate(detection: BpmDetection, index: int) -> Option<Tempo> {
    if index == 0 {
        Some(detection.bpm)
    } else if index == 1 {
        detection.half
    } else if index == 2 {
        detection.double
    } else {
        None
    }
}

impl BpmDetection {
    /// The candidate at a place of the list that is offered.
    pub fn candidate(&self, index: usize) -> (tempo: Option<Tempo>)
        ensures
            tempo == candidate(*self, index as int),
    {
        match index {
            0 => Some(self.bpm),
            1 => self.half,
            2 => self.double,
            _ => None,
        }
    }
}

/// The name of a place of the list of candidates.
pub open spec fn candidate_name(index: int) -> Seq<char> {
    if index == 0 {
        "Single-time"@
    } else if index == 1 {
        "Half-time"@
    } else {
        "Double-time"@
    }
}

/// The name of a place of the list of candidates.
pub fn candidate_label(index: usize) -> (label: &'static str)
    requires
        index < 3,
    ensures
        label@ == candidate_name(index as int),
{
    match index {
        0 => "Single-time",
        1 => "Half-time",
        _ => "Double-time",
    }
}

/// What is shown of a stable tempo.
pub fn stable_text(detection: &BpmDetection) -> (text: String)
    ensures
        text@ == "Stable tempo · "@ + tempo_text(detection.bpm.value as nat, 1) + " BPM · "@
            + decimal(detection.confidence as nat) + "% confidence"@,
{
    let mut text = String::from_str("Stable tempo · ");
    text.append(format_tempo(detection.bpm.value, 1).as_str());
    text.append(" BPM · ");
    push_decimal(&mut text, detection.confidence as u64);
    text.append("% confidence");
    assert(text@ =~= "Stable tempo · "@ + tempo_text(detection.bpm.value as nat, 1) + " BPM · "@
        + decimal(detection.confidence as nat) + "% confidence"@);
    text
}

/// What is shown of a candidate.
pub fn candidate_text(index: usize, tempo: u32) -> (text: String)
    requires
        index < 3,
    ensures
        text@ == candidate_name(index as int) + " · "@ + tempo_text(tempo as nat, 1) + " BPM"@,
{
    let mut text = String::from_str(candidate_label(index));
    text.append(" · ");
    text.append(format_tempo(tempo, 1).as_str());
    text.append(" BPM");
    assert(text@ =~= candidate_name(index as int) + " · "@ + tempo_text(tempo as nat, 1) + " BPM"@);
    text
}

/// A part of a file with its tempo, as the user has it so far.
#[derive(Clone, Copy, Debug, PartialEq, Eq, Structural)]
pub struct TempoSectionDraft {
    pub start: u64,
    pub end: u64,
    pub detection: Option<BpmDetection>,
    /// The candidate that the user wants.
    pub selected: usize,
}

/// The tempo of a section: the wanted candidate, or the detected tempo where there is no
/// such candidate.
pub open spec fn section_tempo(draft: TempoSectionDraft) -> Option<Tempo> {
    match draft.detection {
        Some(detection) => match candidate(detection, draft.selected as int) {
            Some(tempo) => Some(tempo),
            None => Some(detection.bpm),
        },
        None => None,
    }
}

impl TempoSectionDraft {
    /// The tempo of the section, if one was detected.
    pub fn bpm(&self) -> (tempo: Option<Tempo>)
        ensures
            tempo == section_tempo(*self),
    {
        match self.detection {
            Some(detection) => match detection.candidate(self.selected) {
                Some(tempo) => Some(tempo),
                None => Some(detection.bpm),
            },
            None => None,
        }
    }
}

/// A part of a file, as the analysis found it.
#[derive(Clone, Copy, Debug, PartialEq, Eq, Structural)]
pub struct TempoSection {
    pub start: u64,
    pub end: u64,
    pub detection: Option<BpmDetection>,
}

/// Why no tempo could be relied on.
#[derive(Clone, Copy, Debug, PartialEq, Eq, Structural)]
pub enum TempoUnreliableReason {
    WeakPulse,
    CompetingTempos,
    UnstableTempo,
}

/// An analysis without a tempo to rely on.
#[derive(Clone, Copy, Debug, PartialEq, Eq, Structural)]
pub struct TempoUnreliable {
    pub reason: TempoUnreliableReason,
    pub best: Option<BpmDetection>,
}

/// What an analysis found.
#[derive(Debug)]
pub enum TempoAnalysis {
    /// One tempo, from `start` to `end`.
    Stable { start: u64, end: u64, detection: BpmDetection },
    Sections(Vec<TempoSection>),
    Unreliable(TempoUnreliable),
}

/// A section as it is first shown.
pub open spec fn fresh_section(section: TempoSection) -> TempoSectionDraft {
    TempoSectionDraft {
        start: section.start,
        end: section.end,
        detection: section.detection,
        selected: 0,
    }
}

/// The sections that an analysis gives; without a tempo, the whole file.
pub open spec fn analysed_sections(analysis: TempoAnalysis, duration: u64) -> Seq<
    TempoSectionDraft,
> {
    match analysis {
        TempoAnalysis::Stable { start, end, detection } => seq![
            TempoSectionDraft { start, end, detection: Some(detection), selected: 0 },
        ],
        TempoAnalysis::Sections(sections) => Seq::new(
            sections@.len(),
            |i: int| fresh_section(sections@[i]),
        ),
        TempoAnalysis::Unreliable(_) => seq![
            TempoSectionDraft { start: 0, end: duration, detection: None, selected: 0 },
        ],
    }
}

/// News of a running analysis.
#[derive(Debug)]
pub enum DetectionNews {
    Waiting,
    Arrived(Result<TempoAnalysis, String>),
    /// The analysis ended without an answer.
    Stopped,
}

/// The answer that news stand for.
pub open spec fn answer_of(news: DetectionNews, result: Result<TempoAnalysis, String>) -> bool {
    match news {
        DetectionNews::Waiting => false,
        DetectionNews::Arrived(answer) => result == answer,
        DetectionNews::Stopped => result matches Err(error) && error@
            == "Tempo detection stopped unexpectedly"@,
    }
}

/// An analysis that was asked for.
#[derive(Debug)]
pub struct BpmDetectionState {
    pub result: Option<Result<TempoAnalysis, String>>,
    /// The detected tempo was put into the field.
    pub applied: bool,
    /// The candidate that the user wants of a stable tempo.
    pub selected: usize,
    pub sections: Vec<TempoSectionDraft>,
    /// How long the file is.
    pub duration: u64,
}

/// How many sections have a tempo.
pub open spec fn detected_sections(sections: Seq<TempoSectionDraft>) -> nat
    decreases sections.len(),
{
    if sections.len() == 0 {
        0
    } else {
        detected_sections(sections.drop_last()) + if sections.last().detection is Some {
            1nat
        } else {
            0nat
        }
    }
}

impl BpmDetectionState {
    /// An analysis that has just started.
    pub fn new(duration: u64) -> (state: Self)
        ensures
            state.result is None,
            !state.applied,
            state.selected == 0,
            state.sections@.len() == 0,
            state.duration == duration,
    {
        BpmDetectionState {
            result: None,
            applied: false,
            selected: 0,
            sections: Vec::new(),
            duration,
        }
    }

    /// Takes the answer; a failure leaves the sections as they are.
    pub fn accept(&mut self, result: Result<TempoAnalysis, String>)
        ensures
            final(self).result == Some(result),
            final(self).sections@ == match result {
                Ok(analysis) => analysed_sections(analysis, old(self).duration),
                Err(_) => old(self).sections@,
            },
            final(self).applied == old(self).applied,
            final(self).selected == old(self).selected,
            final(self).duration == old(self).duration,
    {
        if let Ok(analysis) = &result {
            let mut drafts: Vec<TempoSectionDraft> = Vec::new();
            match analysis {
                TempoAnalysis::Stable { start, end, detection } => {
                    drafts.push(
                        TempoSectionDraft {
                            start: *start,
                            end: *end,
                            detection: Some(*detection),
                            selected: 0,
                        },
                    );
                },
                TempoAnalysis::Sections(sections) => {
                    let mut index: usize = 0;
                    while index < sections.len()
                        invariant
                            index <= sections.len(),
                            drafts@ == Seq::new(index as nat, |i: int| fresh_section(sections@[i])),
                        decreases sections.len() - index,
                    {
                        let section = sections[index];
                        drafts.push(
                            TempoSectionDraft {
                                start: section.start,
                                end: section.end,
                                detection: section.detection,
                                selected: 0,
                            },
                        );
                        index += 1;
                        assert(drafts@ =~= Seq::new(
                            index as nat,
                            |i: int| fresh_section(sections@[i]),
                        ));
                    }
                },
                TempoAnalysis::Unreliable(_) => {
                    drafts.push(
                        TempoSectionDraft {
                            start: 0,
                            end: self.duration,
                            detection: None,
                            selected: 0,
                        },
                    );
                },
            }
            assert(drafts@ =~= analysed_sections(*analysis, old(self).duration));
            self.sections = drafts;
        }
        self.result = Some(result);
    }

    /// Takes news, as long as there is no answer yet.
    pub fn poll(&mut self, news: DetectionNews)
        ensures
            old(self).result is Some || news is Waiting ==> *final(self) == *old(self),
            old(self).result is None && !(news is Waiting) ==> {
                &&& final(self).result is Some
                &&& answer_of(news, final(self).result->0)
                &&& final(self).sections@ == match final(self).result->0 {
                    Ok(analysis) => analysed_sections(analysis, old(self).duration),
                    Err(_) => old(self).sections@,
                }
                &&& final(self).applied == old(self).applied
                &&& final(self).selected == old(self).selected
                &&& final(self).duration == old(self).duration
            },
    {
        if self.result.is_some() {
            return;
        }
        match news {
            DetectionNews::Waiting => {},
            DetectionNews::Arrived(result) => self.accept(result),
            DetectionNews::Stopped => self.accept(
                Err(String::from_str("Tempo detection stopped unexpectedly")),
            ),
        }
    }

    /// The tempo to put into the field: that of a stable answer, the first time it is shown.
    pub fn first_tempo(&mut self) -> (tempo: Option<Tempo>)
        ensures
            final(self).result == old(self).result,
            final(self).sections == old(self).sections,
            final(self).selected == old(self).selected,
            final(self).duration == old(self).duration,
            match old(self).result {
                Some(Ok(TempoAnalysis::Stable { start, end, detection })) => {
                    &&& final(self).applied
                    &&& tempo == if old(self).applied {
                        None
                    } else {
                        Some(detection.bpm)
                    }
                },
                _ => tempo is None && final(self).applied == old(self).applied,
            },
    {
        let fresh: Option<Tempo> = match &self.result {
            Some(Ok(TempoAnalysis::Stable { start: _, end: _, detection })) => Some(detection.bpm),
            _ => None,
        };
        if fresh.is_none() || self.applied {
            return None;
        }
        self.applied = true;
        fresh
    }

    /// Chooses a candidate of a stable tempo, and gives the tempo to put into the field.
    /// Nothing happens where there is no such candidate.
    pub fn choose_candidate(&mut self, index: usize) -> (tempo: Option<Tempo>)
        ensures
            final(self).result == old(self).result,
            final(self).applied == old(self).applied,
            final(self).duration == old(self).duration,
            tempo == match old(self).result {
                Some(Ok(TempoAnalysis::Stable { start, end, detection })) => candidate(
                    detection,
                    index as int,
                ),
                _ => None,
            },
            tempo is None ==> final(self).selected == old(self).selected && final(self).sections
                == old(self).sections,
            tempo is Some ==> {
                &&& final(self).selected == index
                &&& final(self).sections@ == if old(self).sections@.len() == 0 {
                    old(self).sections@
                } else {
                    old(self).sections@.update(
                        0,
                        TempoSectionDraft { selected: index, ..old(self).sections@[0] },
                    )
                }
            },
    {
        let tempo: Option<Tempo> = match &self.result {
            Some(Ok(TempoAnalysis::Stable { start: _, end: _, detection })) => detection.candidate(
                index,
            ),
            _ => None,
        };
        if tempo.is_some() {
            self.selected = index;
            if self.sections.len() > 0 {
                let mut first = self.sections[0];
                first.selected = index;
                self.sections[0] = first;
            }
        }
        tempo
    }

    /// The answer divides the file into sections.
    pub open spec fn in_sections(self) -> bool {
        self.result matches Some(Ok(TempoAnalysis::Sections(_)))
    }

    /// Whether the answer divides the file into sections.
    pub fn has_sections(&self) -> (yes: bool)
        ensures
            yes == self.in_sections(),
    {
        match &self.result {
            Some(Ok(TempoAnalysis::Sections(_))) => true,
            _ => false,
        }
    }

    /// How many sections have a tempo, as a line of text.
    pub fn detected_text(&self) -> (text: String)
        ensures
            text@ == decimal(detected_sections(self.sections@)) + " stable tempo region"@ + plural(
                detected_sections(self.sections@) as int,
            ) + " detected"@,
    {
        let mut count: u64 = 0;
        let mut index: usize = 0;
        while index < self.sections.len()
            invariant
                index <= self.sections.len(),
                count <= index,
                count == detected_sections(self.sections@.take(index as int)),
            decreases self.sections.len() - index,
        {
            assert(self.sections@.take(index + 1).drop_last() =~= self.sections@.take(
                index as int,
            ));
            if self.sections[index].detection.is_some() {
                count += 1;
            }
            index += 1;
        }
        assert(self.sections@.take(index as int) =~= self.sections@);
        let mut text = String::new();
        push_decimal(&mut text, count);
        text.append(" stable tempo region");
        text.append(plural_suffix(count));
        text.append(" detected");
        assert(text@ =~= decimal(count as nat) + " stable tempo region"@ + plural(count as int)
            + " detected"@);
        text
    }
}

/// The section after which the boundary lies.
pub open spec fn has_boundary(sections: Seq<TempoSectionDraft>, index: int) -> bool {
    0 <= index < sections.len() - 1
}

/// Where a boundary may lie: both sections keep their least length, the first before the
/// second.
pub open spec fn placed_boundary(sections: Seq<TempoSectionDraft>, index: int, wanted: int) -> int {
    let first = least(sections[index].start + SHORTEST_SECTION, u64::MAX as int);
    let last = greatest(sections[index + 1].end - SHORTEST_SECTION, first);
    if wanted < first {
        first
    } else if wanted > last {
        last
    } else {
        wanted
    }
}

/// The sections after the boundary behind one of them was moved.
pub open spec fn with_boundary(
    sections: Seq<TempoSectionDraft>,
    index: int,
    wanted: int,
) -> Seq<TempoSectionDraft> {
    let place = placed_boundary(sections, index, wanted) as u64;
    sections.update(index, TempoSectionDraft { end: place, ..sections[index] }).update(
        index + 1,
        TempoSectionDraft { start: place, ..sections[index + 1] },
    )
}

/// Moves the boundary behind a section.
pub fn move_boundary(sections: &mut Vec<TempoSectionDraft>, index: usize, wanted: u64)
    requires
        has_boundary(old(sections)@, index as int),
    ensures
        final(sections)@ == with_boundary(old(sections)@, index as int, wanted as int),
{
    let count: usize = sections.len();
    assert(index < count - 1);
    let mut first = sections[index];
    let mut second = sections[index + 1];
    let low: u64 = if first.start <= u64::MAX - SHORTEST_SECTION {
        first.start + SHORTEST_SECTION
    } else {
        u64::MAX
    };
    let high: u64 = if second.end >= SHORTEST_SECTION && second.end - SHORTEST_SECTION >= low {
        second.end - SHORTEST_SECTION
    } else {
        low
    };
    let place: u64 = if wanted < low {
        low
    } else if wanted > high {
        high
    } else {
        wanted
    };
    first.end = place;
    second.start = place;
    sections[index] = first;
    sections[index + 1] = second;
    assert(sections@ =~= with_boundary(old(sections)@, index as int, wanted as int));
}

/// The time that a place on the map stands for, the map being `width` wide.
pub open spec fn map_time(offset: int, width: int, duration: int) -> int {
    if offset <= 0 {
        0
    } else if offset >= width {
        duration
    } else {
        offset * duration / width
    }
}

/// The time that a place on the map stands for, the map being `width` wide.
pub fn time_at(offset: i64, width: u32, duration: u64) -> (time: u64)
    requires
        width > 0,
    ensures
        time == map_time(offset as int, width as int, duration as int),
        time <= duration,
{
    if offset <= 0 {
        0
    } else if offset >= width as i64 {
        duration
    } else {
        assert(0 <= offset * duration <= 0xffff_ffff * 0xffff_ffff_ffff_ffff) by (nonlinear_arith)
            requires
                0 <= offset < width <= 0xffff_ffff,
                0 <= duration <= 0xffff_ffff_ffff_ffff,
        ;
        assert((offset * duration) / width as int <= duration) by (nonlinear_arith)
            requires
                0 < offset < width,
                0 <= duration,
        ;
        let time: u128 = offset as u128 * duration as u128 / width as u128;
        time as u64
    }
}

/// What the pointer does on the map, as places along it.
#[derive(Clone, Copy, Debug)]
pub struct MapGesture {
    pub width: u32,
    /// A boundary is dragged, and to where.
    pub boundary: Option<(usize, i64)>,
    /// A boundary is dragged, or is about to be.
    pub boundary_active: bool,
    /// The play position is dragged to here.
    pub playhead: Option<i64>,
    /// The map was clicked here.
    pub click: Option<i64>,
}

/// The length of the file that a map shows.
pub open spec fn map_duration(sections: Seq<TempoSectionDraft>) -> int {
    if sections.len() == 0 {
        0
    } else {
        sections.last().end as int
    }
}

/// The sections after a gesture.
pub open spec fn after_gesture(
    sections: Seq<TempoSectionDraft>,
    gesture: MapGesture,
) -> Seq<TempoSectionDraft> {
    match gesture.boundary {
        Some((index, offset)) => if has_boundary(sections, index as int) {
            with_boundary(
                sections,
                index as int,
                map_time(offset as int, gesture.width as int, map_duration(sections)),
            )
        } else {
            sections
        },
        None => sections,
    }
}

/// Where a gesture moves the play position. A click counts only while no boundary is active,
/// and dragging the position goes before it.
pub open spec fn gesture_seek(sections: Seq<TempoSectionDraft>, gesture: MapGesture) -> Option<
    int,
> {
    if sections.len() == 0 {
        None
    } else {
        match (gesture.playhead, gesture.click) {
            (Some(offset), _) => Some(
                map_time(offset as int, gesture.width as int, map_duration(sections)),
            ),
            (None, Some(offset)) => if gesture.boundary_active {
                None
            } else {
                Some(map_time(offset as int, gesture.width as int, map_duration(sections)))
            },
            (None, None) => None,
        }
    }
}

/// Performs a gesture on the map: boundaries move, and the play position to seek to comes
/// back.
pub fn tempo_map_editor(sections: &mut Vec<TempoSectionDraft>, gesture: MapGesture) -> (seek:
    Option<u64>)
    requires
        gesture.width > 0,
    ensures
        final(sections)@ == after_gesture(old(sections)@, gesture),
        match gesture_seek(old(sections)@, gesture) {
            Some(time) => seek == Some(time as u64),
            None => seek is None,
        },
{
    if sections.len() == 0 {
        return None;
    }
    let last: usize = sections.len() - 1;
    let duration: u64 = sections[last].end;
    if let Some((index, offset)) = gesture.boundary {
        if index < last {
            let wanted: u64 = time_at(offset, gesture.width, duration);
            move_boundary(sections, index, wanted);
        }
    }
    if let Some(offset) = gesture.playhead {
        return Some(time_at(offset, gesture.width, duration));
    }
    if !gesture.boundary_active {
        if let Some(offset) = gesture.click {
            return Some(time_at(offset, gesture.width, duration));
        }
    }
    None
}

/// What the user does in the list of sections.
#[derive(Clone, Copy, Debug)]
pub enum SectionEdit {
    /// Another candidate is wanted.
    Choose { index: usize, candidate: usize },
    Audition { index: usize },
    /// The section ends elsewhere.
    Split { index: usize, time: u64 },
}

/// The sections after an edit; one that names nothing changes nothing.
pub open spec fn after_edit(sections: Seq<TempoSectionDraft>, edit: SectionEdit) -> Seq<
    TempoSectionDraft,
> {
    match edit {
        SectionEdit::Choose { index, candidate: wanted } => if index < sections.len() && (
        sections[index as int].detection matches Some(detection) && candidate(
            detection,
            wanted as int,
        ) is Some) {
            sections.update(
                index as int,
                TempoSectionDraft { selected: wanted, ..sections[index as int] },
            )
        } else {
            sections
        },
        SectionEdit::Audition { .. } => sections,
        SectionEdit::Split { index, time } => if has_boundary(sections, index as int) {
            with_boundary(sections, index as int, time as int)
        } else {
            sections
        },
    }
}

/// Performs an edit in the list of sections, and gives the range to listen to.
pub fn tempo_sections_editor(sections: &mut Vec<TempoSectionDraft>, edit: SectionEdit) -> (range:
    Option<(u64, u64)>)
    ensures
        final(sections)@ == after_edit(old(sections)@, edit),
        range == match edit {
            SectionEdit::Audition { index } => if index < old(sections)@.len() {
                Some((old(sections)@[index as int].start, old(sections)@[index as int].end))
            } else {
                None
            },
            _ => None,
        },
{
    match edit {
        SectionEdit::Choose { index, candidate } => {
            if index < sections.len() {
                let mut section = sections[index];
                if let Some(detection) = section.detection {
                    if detection.candidate(candidate).is_some() {
                        section.selected = candidate;
                        sections[index] = section;
                    }
                }
            }
            assert(sections@ =~= after_edit(old(sections)@, edit));
            None
        },
        SectionEdit::Audition { index } => {
            if index < sections.len() {
                Some((sections[index].start, sections[index].end))
            } else {
                None
            }
        },
        SectionEdit::Split { index, time } => {
            if sections.len() > 0 && index < sections.len() - 1 {
                move_boundary(sections, index, time);
            }
            None
        },
    }
}

/// Why no tempo could be relied on, in words.
pub open spec fn reason_text(reason: TempoUnreliableReason) -> Seq<char> {
    match reason {
        TempoUnreliableReason::WeakPulse => "no stable rhythmic pulse was found"@,
        TempoUnreliableReason::CompetingTempos =>
            "multiple unrelated tempo families remain similarly likely"@,
        TempoUnreliableReason::UnstableTempo =>
            "the tempo changes too often to form stable regions"@,
    }
}

/// What the user reads of an analysis without a tempo.
pub open spec fn unreliable_text(unreliable: TempoUnreliable) -> Seq<char> {
    let start = "Tempo could not be detected reliably: "@ + reason_text(unreliable.reason);
    match unreliable.best {
        None => start + "."@,
        Some(best) => start + " ("@ + decimal(best.confidence as nat) + "% family confidence; "@
            + decimal(best.runner_up_confidence as nat) + "% competing)."@,
    }
}

/// What the user reads of an analysis without a tempo.
pub fn tempo_unreliable_message(unreliable: TempoUnreliable) -> (text: String)
    ensures
        text@ == unreliable_text(unreliable),
{
    let mut text = String::from_str("Tempo could not be detected reliably: ");
    match unreliable.reason {
        TempoUnreliableReason::WeakPulse => text.append("no stable rhythmic pulse was found"),
        TempoUnreliableReason::CompetingTempos => text.append(
            "multiple unrelated tempo families remain similarly likely",
        ),
        TempoUnreliableReason::UnstableTempo => text.append(
            "the tempo changes too often to form stable regions",
        ),
    }
    match unreliable.best {
        None => text.append("."),
        Some(best) => {
            text.append(" (");
            push_decimal(&mut text, best.confidence as u64);
            text.append("% family confidence; ");
            push_decimal(&mut text, best.runner_up_confidence as u64);
            text.append("% competing).");
        },
    }
    assert(text@ =~= unreliable_text(unreliable));
    text
}

/// The frame at which the part of a file for a section starts.
pub open spec fn region_start(draft: TempoSectionDraft, sample_rate: int, frames: int) -> int {
    nearest_frame(draft.start - REGION_PADDING, sample_rate, frames)
}

/// The frame before which the part of a file for a section ends.
pub open spec fn region_end(draft: TempoSectionDraft, sample_rate: int, frames: int) -> int {
    nearest_frame(draft.end + REGION_PADDING, sample_rate, frames)
}

/// The parts of a file for its sections, the last of which started at `previous`. There
/// are none at all where a part would be empty or would start before its predecessor.
/// Sections without a tempo, or with one that no project holds, get none.
pub open spec fn regions_of(
    drafts: Seq<TempoSectionDraft>,
    previous: int,
    sample_rate: int,
    frames: int,
) -> Option<Seq<MediaRegion>>
    decreases drafts.len(),
{
    if drafts.len() == 0 {
        Some(Seq::empty())
    } else {
        match section_tempo(drafts[0]) {
            None => regions_of(drafts.skip(1), previous, sample_rate, frames),
            Some(tempo) => {
                let start = region_start(drafts[0], sample_rate, frames);
                let end = region_end(drafts[0], sample_rate, frames);
                if start < previous || end <= start {
                    None
                } else {
                    match regions_of(drafts.skip(1), start, sample_rate, frames) {
                        None => None,
                        Some(rest) => if tempo.accepted {
                            Some(
                                seq![
                                    MediaRegion {
                                        start_frame: start as u64,
                                        end_frame: end as u64,
                                        tempo: tempo.value,
                                    },
                                ] + rest,
                            )
                        } else {
                            Some(rest)
                        },
                    }
                }
            },
        }
    }
}

/// The parts that a file is cut into, if it is cut at all.
pub open spec fn media_regions(
    drafts: Seq<TempoSectionDraft>,
    sample_rate: int,
    frames: int,
) -> Option<Seq<MediaRegion>> {
    if sample_rate == 0 || frames == 0 {
        None
    } else {
        match regions_of(drafts, 0, sample_rate, frames) {
            Some(regions) => if regions.len() > 0 {
                Some(regions)
            } else {
                None
            },
            None => None,
        }
    }
}

/// The frame nearest to a time, and no later than the end.
fn frame_near(nanos: u128, sample_rate: u32, frames: u64) -> (frame: u64)
    requires
        nanos <= 0x1_ffff_ffff_ffff_ffff,
    ensures
        frame == nearest_frame(nanos as int, sample_rate as int, frames as int),
{
    if nanos == 0 || sample_rate == 0 {
        return 0;
    }
    assert(0 <= nanos * sample_rate <= 0x1_ffff_ffff_ffff_ffff * 0xffff_ffff) by (nonlinear_arith)
        requires
            0 <= nanos <= 0x1_ffff_ffff_ffff_ffff,
            0 <= sample_rate <= 0xffff_ffff,
    ;
    let product: u128 = nanos * sample_rate as u128;
    let limit: u128 = frames as u128 * 1_000_000_000;
    if product >= limit {
        frames
    } else {
        ((2 * product + 1_000_000_000) / 2_000_000_000) as u64
    }
}

/// The parts that a file is cut into, if it is cut at all.
pub fn tempo_media_regions(
    sample_rate: u32,
    frames: u64,
    drafts: &Vec<TempoSectionDraft>,
) -> (regions: Option<Vec<MediaRegion>>)
    ensures
        match regions {
            Some(regions) => media_regions(drafts@, sample_rate as int, frames as int) == Some(
                regions@,
            ),
            None => media_regions(drafts@, sample_rate as int, frames as int) is None,
        },
{
    if sample_rate == 0 || frames == 0 {
        return None;
    }
    let mut regions: Vec<MediaRegion> = Vec::new();
    let mut previous: u64 = 0;
    let mut index: usize = 0;
    assert(drafts@.skip(0) =~= drafts@);
    assert(forall|rest: Seq<MediaRegion>| Seq::<MediaRegion>::empty() + rest =~= rest);
    while index < drafts.len()
        invariant
            index <= drafts.len(),
            match regions_of(
                drafts@.skip(index as int),
                previous as int,
                sample_rate as int,
                frames as int,
            ) {
                Some(rest) => regions_of(drafts@, 0, sample_rate as int, frames as int) == Some(
                    regions@ + rest,
                ),
                None => regions_of(drafts@, 0, sample_rate as int, frames as int) is None,
            },
            sample_rate > 0,
            frames > 0,
        decreases drafts.len() - index,
    {
        let draft = drafts[index];
        let ghost rest = drafts@.skip(index as int);
        assert(rest[0] == draft && rest.skip(1) =~= drafts@.skip(index + 1));
        if let Some(tempo) = draft.bpm() {
            let start: u64 = if draft.start < REGION_PADDING {
                0
            } else {
                frame_near((draft.start - REGION_PADDING) as u128, sample_rate, frames)
            };
            let end: u64 = frame_near(
                draft.end as u128 + REGION_PADDING as u128,
                sample_rate,
                frames,
            );
            if start < previous || end <= start {
                return None;
            }
            previous = start;
            if tempo.accepted {
                let ghost before = regions@;
                let region = MediaRegion {
                    start_frame: start,
                    end_frame: end,
                    tempo: tempo.value,
                };
                regions.push(region);
                assert(forall|rest: Seq<MediaRegion>|
                    before + (seq![region] + rest) =~= #[trigger] (before.push(region) + rest));
            }
        }
        index += 1;
    }
    assert(drafts@.skip(index as int).len() == 0);
    assert(regions@ + Seq::<MediaRegion>::empty() =~= regions@);
    if regions.len() > 0 {
        Some(regions)
    } else {
        None
    }
}

/// The parts of a file start in order, none of them is empty, and all lie in the file.
pub open spec fn in_order(regions: Seq<MediaRegion>, from: int, frames: int) -> bool {
    &&& forall|i: int|
        0 <= i < regions.len() ==> from <= (#[trigger] regions[i]).start_frame
            < regions[i].end_frame <= frames
    &&& forall|i: int, j: int|
        0 <= i < j < regions.len() ==> regions[i].start_frame <= regions[j].start_frame
}

proof fn lemma_regions_in_order(
    drafts: Seq<TempoSectionDraft>,
    previous: int,
    sample_rate: int,
    frames: int,
)
    requires
        0 <= sample_rate <= u32::MAX,
        0 <= frames <= u64::MAX,
    ensures
        regions_of(drafts, previous, sample_rate, frames) matches Some(regions) ==> in_order(
            regions,
            previous,
            frames,
        ),
    decreases drafts.len(),
{
    if drafts.len() > 0 {
        let start = region_start(drafts[0], sample_rate, frames);
        let end = region_end(drafts[0], sample_rate, frames);
        lemma_regions_in_order(drafts.skip(1), previous, sample_rate, frames);
        lemma_regions_in_order(drafts.skip(1), start, sample_rate, frames);
        lemma_frame_in_file(drafts[0].start - REGION_PADDING, sample_rate, frames);
        lemma_frame_in_file(drafts[0].end + REGION_PADDING, sample_rate, frames);
    }
}

proof fn lemma_frame_in_file(nanos: int, sample_rate: int, frames: int)
    requires
        0 <= sample_rate,
        0 <= frames,
    ensures
        0 <= nearest_frame(nanos, sample_rate, frames) <= frames,
{
    if nanos > 0 && sample_rate != 0 && nanos * sample_rate < frames * 1_000_000_000 {
        assert(nanos * sample_rate >= 0) by (nonlinear_arith)
            requires
                nanos > 0,
                sample_rate >= 0,
        ;
    }
}

/// The parts that a file is cut into start in order, none of them is empty, and all lie
/// in the file.
pub proof fn regions_stay_in_the_file(
    drafts: Seq<TempoSectionDraft>,
    sample_rate: u32,
    frames: u64,
)
    ensures
        media_regions(drafts, sample_rate as int, frames as int) matches Some(regions)
            ==> regions.len() > 0 && in_order(regions, 0, frames as int),
{
    lemma_regions_in_order(drafts, 0, sample_rate as int, frames as int);
}

/// Each section starts where its predecessor ends.
pub open spec fn contiguous(sections: Seq<TempoSectionDraft>) -> bool {
    forall|i: int|
        0 <= i < sections.len() - 1 ==> (#[trigger] sections[i]).end == sections[i + 1].start
}

/// However a boundary is moved, the sections still cover the same file without gaps, and
/// both sections at it keep their least length if they had twice that together.
pub proof fn boundaries_leave_no_gaps(
    sections: Seq<TempoSectionDraft>,
    index: int,
    wanted: int,
)
    requires
        contiguous(sections),
        has_boundary(sections, index),
    ensures
        ({
            let after = with_boundary(sections, index, wanted);
            &&& contiguous(after)
            &&& after.len() == sections.len()
            &&& after[0].start == sections[0].start
            &&& after.last().end == sections.last().end
            &&& sections[index].start + 2 * SHORTEST_SECTION <= sections[index + 1].end ==> {
                &&& after[index].end - after[index].start >= SHORTEST_SECTION
                &&& after[index + 1].end - after[index + 1].start >= SHORTEST_SECTION
            }
        }),
{
}

/// A file whose tempo is within a tenth of a beat per minute of the project's plays along with
/// it, one with another tempo is asked about, and one without plays as it was recorded.
pub proof fn other_tempos_are_asked_about(asset: u32, project: u32)
    ensures
        decided(None, project) == DropTempoDecision::Apply(TempoSync::Original),
        -100 <= asset - project <= 100 ==> decided(Some(asset), project)
            == DropTempoDecision::Apply(TempoSync::Stretch),
        !(-100 <= asset - project <= 100) ==> decided(Some(asset), project)
            == DropTempoDecision::Prompt(asset),
{
}

/// A boundary goes where it is wanted as long as that leaves a second on either side; it ends one
/// section and starts the next, and nothing else changes.
pub proof fn boundaries_go_where_they_are_wanted(
    sections: Seq<TempoSectionDraft>,
    index: int,
    wanted: u64,
)
    requires
        has_boundary(sections, index),
        sections[index].start + 2_000_000_000 <= sections[index + 1].end,
    ensures
        ({
            let after = with_boundary(sections, index, wanted as int);
            let first = sections[index].start + 1_000_000_000;
            let last = sections[index + 1].end - 1_000_000_000;
            let place = after[index].end;
            &&& first <= wanted <= last ==> place == wanted
            &&& wanted < first ==> place == first
            &&& wanted > last ==> place == last
            &&& after[index + 1].start == place
            &&& after[index] == (TempoSectionDraft { end: place, ..sections[index] })
            &&& after[index + 1] == (TempoSectionDraft { start: place, ..sections[index + 1] })
            &&& after.len() == sections.len()
            &&& forall|i: int|
                0 <= i < sections.len() && i != index && i != index + 1 ==> #[trigger] after[i]
                    == sections[i]
        }),
{
}

/// Another candidate is chosen where there is one, and only that changes; listening changes
/// nothing, and a split moves the end of its section.
pub proof fn section_edits_change_one_section(
    sections: Seq<TempoSectionDraft>,
    index: usize,
    wanted: usize,
    time: u64,
)
    requires
        index < sections.len(),
    ensures
        ({
            let section = sections[index as int];
            let offered = section.detection matches Some(detection) && (wanted == 0 || (wanted == 1
                && detection.half is Some) || (wanted == 2 && detection.double is Some));
            let after = after_edit(sections, SectionEdit::Choose { index, candidate: wanted });
            &&& offered ==> after == sections.update(
                index as int,
                TempoSectionDraft { selected: wanted, ..section },
            )
            &&& !offered ==> after == sections
        }),
        after_edit(sections, SectionEdit::Audition { index }) == sections,
        has_boundary(sections, index as int) ==> after_edit(
            sections,
            SectionEdit::Split { index, time },
        ) == with_boundary(sections, index as int, time as int),
        !has_boundary(sections, index as int) ==> after_edit(
            sections,
            SectionEdit::Split { index, time },
        ) == sections,
{
}

/// The tempo of a section is the candidate that was chosen: what was detected, half of it or
/// twice as much, and what was detected where that is not offered.
pub proof fn sections_have_the_chosen_tempo(draft: TempoSectionDraft, detection: BpmDetection)
    requires
        draft.detection == Some(detection),
    ensures
        draft.selected == 0 ==> section_tempo(draft) == Some(detection.bpm),
        draft.selected == 1 && detection.half is Some ==> section_tempo(draft) == detection.half,
        draft.selected == 2 && detection.double is Some ==> section_tempo(draft)
            == detection.double,
        draft.selected == 1 && detection.half is None ==> section_tempo(draft) == Some(
            detection.bpm,
        ),
        draft.selected == 2 && detection.double is None ==> section_tempo(draft) == Some(
            detection.bpm,
        ),
{
}

/// A place on the map shows the time as far along the file, rounded down; outside of the map the
/// nearer end.
pub proof fn map_places_show_times_in_proportion(offset: int, width: int, duration: int)
    requires
        0 < width,
        0 <= duration,
    ensures
        offset <= 0 ==> map_time(offset, width, duration) == 0,
        offset >= width ==> map_time(offset, width, duration) == duration,
        0 < offset < width ==> width * map_time(offset, width, duration) <= offset * duration
            < width * (map_time(offset, width, duration) + 1),
{
    let total = offset * duration;
    vstd::arithmetic::div_mod::lemma_fundamental_div_mod(total, width);
    assert(0 <= total % width < width) by (nonlinear_arith)
        requires
            0 < width,
    ;
    let time = total / width;
    assert(width * (time + 1) == width * time + width) by (nonlinear_arith);
}

/// The play position is sought where it was dragged to, or where the map was clicked while no
/// boundary is held.
pub proof fn gestures_seek_where_they_point(
    sections: Seq<TempoSectionDraft>,
    gesture: MapGesture,
    offset: i64,
)
    requires
        sections.len() > 0,
    ensures
        ({
            let time = map_time(
                offset as int,
                gesture.width as int,
                sections.last().end as int,
            );
            let seek = gesture_seek(sections, gesture);
            &&& gesture.playhead == Some(offset) ==> seek == Some(time)
            &&& gesture.playhead is None && gesture.click == Some(offset) ==> seek
                == if gesture.boundary_active {
                None
            } else {
                Some(time)
            }
            &&& gesture.playhead is None && gesture.click is None ==> seek is None
            &&& gesture.boundary is None ==> after_gesture(sections, gesture) == sections
            &&& gesture.boundary matches Some((index, offset)) ==> has_boundary(
                sections,
                index as int,
            ) ==> after_gesture(sections, gesture) == with_boundary(
                sections,
                index as int,
                map_time(offset as int, gesture.width as int, sections.last().end as int),
            )
        }),
        gesture_seek(Seq::empty(), gesture) is None,
{
}

/// An analysis becomes sections that can be edited: one for a stable tempo, one for each section
/// that was found, and one without a tempo for the whole file where none was found.
pub proof fn analyses_become_sections(
    start: u64,
    end: u64,
    detection: BpmDetection,
    found: Vec<TempoSection>,
    unreliable: TempoUnreliable,
    duration: u64,
)
    ensures
        ({
            let stable = analysed_sections(
                TempoAnalysis::Stable { start, end, detection },
                duration,
            );
            let several = analysed_sections(TempoAnalysis::Sections(found), duration);
            let none = analysed_sections(TempoAnalysis::Unreliable(unreliable), duration);
            &&& stable.len() == 1 && stable[0].start == start && stable[0].end == end
            &&& stable[0].detection == Some(detection) && stable[0].selected == 0
            &&& several.len() == found@.len()
            &&& forall|i: int|
                0 <= i < found@.len() ==> (#[trigger] several[i]).start == found@[i].start
                    && several[i].end == found@[i].end && several[i].detection
                    == found@[i].detection && several[i].selected == 0
            &&& none.len() == 1 && none[0].start == 0 && none[0].end == duration
            &&& none[0].detection is None
        }),
{
}

/// The sections with a tempo are counted one by one.
pub proof fn detected_sections_are_counted(
    sections: Seq<TempoSectionDraft>,
    section: TempoSectionDraft,
)
    ensures
        detected_sections(Seq::empty()) == 0,
        section.detection is Some ==> detected_sections(sections.push(section))
            == detected_sections(sections) + 1,
        section.detection is None ==> detected_sections(sections.push(section))
            == detected_sections(sections),
{
    assert(sections.push(section).drop_last() =~= sections);
}

/// The region of a section reaches two seconds beyond it on either side, on the nearest frames
/// and within the file, and has the tempo that was chosen.
pub proof fn regions_reach_around_their_section(
    draft: TempoSectionDraft,
    tempo: Tempo,
    sample_rate: int,
    frames: int,
)
    requires
        section_tempo(draft) == Some(tempo),
        tempo.accepted,
        0 < sample_rate,
        0 < frames <= u64::MAX,
        draft.start < draft.end,
    ensures
        media_regions(seq![draft], sample_rate, frames) matches Some(regions) ==> {
            let region = regions[0];
            let from = (draft.start - 2_000_000_000) * sample_rate;
            let until = (draft.end + 2_000_000_000) * sample_rate;
            &&& regions.len() == 1
            &&& region.tempo == tempo.value
            &&& draft.start <= 2_000_000_000 ==> region.start_frame == 0
            &&& draft.start > 2_000_000_000 && from < frames * 1_000_000_000 ==> -1_000_000_000
                <= 2 * (region.start_frame * 1_000_000_000 - from) <= 1_000_000_000
            &&& until >= frames * 1_000_000_000 ==> region.end_frame == frames
            &&& until < frames * 1_000_000_000 ==> -1_000_000_000 <= 2 * (region.end_frame
                * 1_000_000_000 - until) <= 1_000_000_000
        },
{
    let drafts = seq![draft];
    assert(drafts.skip(1) =~= Seq::empty());
    let start = region_start(draft, sample_rate, frames);
    let end = region_end(draft, sample_rate, frames);
    assert(regions_of(drafts.skip(1), start, sample_rate, frames) == Some(Seq::<MediaRegion>::empty()));
    lemma_frame_in_file(draft.start - REGION_PADDING, sample_rate, frames);
    lemma_frame_in_file(draft.end + REGION_PADDING, sample_rate, frames);
    let until = (draft.end + 2_000_000_000) * sample_rate;
    assert(until > 0) by (nonlinear_arith)
        requires
            until == (draft.end + 2_000_000_000) * sample_rate,
            0 < sample_rate,
            draft.end >= 0,
    ;
}

/// Sections that all have an accepted tempo become as many regions, in the same order and with
/// the same tempos.
pub proof fn every_section_becomes_a_region(
    drafts: Seq<TempoSectionDraft>,
    previous: int,
    sample_rate: int,
    frames: int,
)
    requires
        forall|i: int|
            0 <= i < drafts.len() ==> (section_tempo(#[trigger] drafts[i]) matches Some(tempo)
                && tempo.accepted),
    ensures
        regions_of(drafts, previous, sample_rate, frames) matches Some(regions) ==> regions.len()
            == drafts.len() && forall|i: int|
            0 <= i < drafts.len() ==> (#[trigger] regions[i]).tempo == section_tempo(
                drafts[i],
            )->0.value,
    decreases drafts.len(),
{
    if drafts.len() > 0 {
        let rest = drafts.skip(1);
        let start = region_start(drafts[0], sample_rate, frames);
        assert forall|i: int| 0 <= i < rest.len() implies (section_tempo(
            #[trigger] rest[i],
        ) matches Some(tempo) && tempo.accepted) by {
            assert(rest[i] == drafts[i + 1]);
        }
        every_section_becomes_a_region(rest, start, sample_rate, frames);
        assert(section_tempo(drafts[0]) is Some);
        match regions_of(drafts, previous, sample_rate, frames) {
            Some(regions) => {
                let others = regions_of(rest, start, sample_rate, frames)->0;
                assert forall|i: int| 0 <= i < drafts.len() implies (
                #[trigger] regions[i]).tempo == section_tempo(drafts[i])->0.value by {
                    if i > 0 {
                        assert(regions[i] == others[i - 1]);
                        assert(rest[i - 1] == drafts[i]);
                    }
                }
            },
            None => {},
        }
    }
}

/// An analysis answers with what it found; one that ended without an answer says so.
pub proof fn analyses_answer_with_what_they_found(
    found: Result<TempoAnalysis, String>,
    result: Result<TempoAnalysis, String>,
)
    ensures
        answer_of(DetectionNews::Arrived(found), result) <==> result == found,
        !answer_of(DetectionNews::Waiting, result),
        answer_of(DetectionNews::Stopped, result) ==> result is Err,
{
}

/// The candidates are named by how often they count: once, half as often, twice as often.
pub proof fn candidates_are_named(detection: BpmDetection)
    ensures
        candidate_name(0) == "Single-time"@,
        candidate_name(1) == "Half-time"@,
        candidate_name(2) == "Double-time"@,
        candidate(detection, 0) == Some(detection.bpm),
        candidate(detection, 1) == detection.half,
        candidate(detection, 2) == detection.double,
        candidate(detection, 3) is None,
{
}

} // verus!
