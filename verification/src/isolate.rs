//! Cutting a single clip out of a project, so that it can be rendered alone.
//!
//! The clip's composition is kept with nothing but the clip's track and the clip. What the
//! clip plays, directly or through compositions nested in it, is kept whole.
use crate::pages::{least, PageRequest, AUDIO_PAGE_FRAMES};
use std::collections::{HashSet, VecDeque};
use vstd::prelude::*;

verus! {

broadcast use vstd::std_specs::hash::group_hash_axioms;

/// A clip, and the composition that it plays, if it plays one. Positions are counted in parts
/// of a beat; `settings` stands for what else the clip is.
#[derive(Clone, Copy, Debug, PartialEq, Eq, Structural)]
pub struct ClipNode {
    pub id: u128,
    pub nested: Option<u128>,
    pub start: i64,
    pub duration: i64,
    pub muted: bool,
    pub settings: u64,
}

/// A track and its clips. `effects`, `instrument` and `settings` stand for what else the track
/// is.
#[derive(Debug)]
pub struct TrackNode {
    pub id: u128,
    pub composition_id: u128,
    pub clips: Vec<ClipNode>,
    pub muted: bool,
    pub solo: bool,
    pub volume_bits: u32,
    pub effects: u64,
    pub instrument: Option<u64>,
    pub settings: u64,
}

/// What a track is.
#[verifier::ext_equal]
pub struct TrackModel {
    pub id: u128,
    pub composition_id: u128,
    pub clips: Seq<ClipNode>,
    pub muted: bool,
    pub solo: bool,
    pub volume_bits: u32,
    pub effects: u64,
    pub instrument: Option<u64>,
    pub settings: u64,
}

impl View for TrackNode {
    type V = TrackModel;

    open spec fn view(&self) -> TrackModel {
        TrackModel {
            id: self.id,
            composition_id: self.composition_id,
            clips: self.clips@,
            muted: self.muted,
            solo: self.solo,
            volume_bits: self.volume_bits,
            effects: self.effects,
            instrument: self.instrument,
            settings: self.settings,
        }
    }
}

/// A composition and its tracks. Its length is counted in parts of a beat; `output_effects`
/// and `settings` stand for what else the composition is.
#[derive(Debug)]
pub struct CompositionNode {
    pub id: u128,
    pub length: i64,
    pub track_ids: Vec<u128>,
    pub track_groups: Vec<u64>,
    pub output_effects: u64,
    pub settings: u64,
}

/// What a composition is.
#[verifier::ext_equal]
pub struct CompositionModel {
    pub id: u128,
    pub length: i64,
    pub track_ids: Seq<u128>,
    pub track_groups: Seq<u64>,
    pub output_effects: u64,
    pub settings: u64,
}

impl View for CompositionNode {
    type V = CompositionModel;

    open spec fn view(&self) -> CompositionModel {
        CompositionModel {
            id: self.id,
            length: self.length,
            track_ids: self.track_ids@,
            track_groups: self.track_groups@,
            output_effects: self.output_effects,
            settings: self.settings,
        }
    }
}

/// What an automation lane moves.
#[derive(Clone, Copy, Debug, PartialEq, Eq, Structural)]
pub enum LaneTarget {
    ClipProcessor { track_id: u128, clip_id: u128 },
    Track { track_id: u128 },
    CompositionOutput,
}

/// An automation lane. `points` stands for what it does.
#[derive(Clone, Copy, Debug, PartialEq, Eq, Structural)]
pub struct LaneNode {
    pub composition_id: u128,
    pub target: LaneTarget,
    pub points: u64,
}

/// The parts of a project and how they hang together. `settings` stands for what belongs to
/// the project as a whole.
#[derive(Debug)]
pub struct ProjectGraph {
    pub root_composition_id: u128,
    pub assets: Vec<u128>,
    pub compositions: Vec<CompositionNode>,
    pub tracks: Vec<TrackNode>,
    pub automation: Vec<LaneNode>,
    pub settings: u64,
}

/// What a project is.
#[verifier::ext_equal]
pub struct ProjectModel {
    pub root_composition_id: u128,
    pub assets: Seq<u128>,
    pub compositions: Seq<CompositionModel>,
    pub tracks: Seq<TrackModel>,
    pub automation: Seq<LaneNode>,
    pub settings: u64,
}

/// What compositions are.
pub open spec fn composition_models(compositions: Seq<CompositionNode>) -> Seq<CompositionModel> {
    compositions.map_values(|composition: CompositionNode| composition@)
}

/// What tracks are.
pub open spec fn track_models(tracks: Seq<TrackNode>) -> Seq<TrackModel> {
    tracks.map_values(|track: TrackNode| track@)
}

impl View for ProjectGraph {
    type V = ProjectModel;

    open spec fn view(&self) -> ProjectModel {
        ProjectModel {
            root_composition_id: self.root_composition_id,
            assets: self.assets@,
            compositions: composition_models(self.compositions@),
            tracks: track_models(self.tracks@),
            automation: self.automation@,
            settings: self.settings,
        }
    }
}

/// The clip to cut out.
#[derive(Clone, Copy, Debug, PartialEq, Eq, Structural)]
pub struct ClipTarget {
    pub composition_id: u128,
    pub track_id: u128,
    pub clip_id: u128,
}

/// Why a clip cannot be cut out.
#[derive(Clone, Copy, Debug, PartialEq, Eq, Structural)]
pub enum IsolationError {
    CompositionMissing,
    TrackMissing,
    ClipMissing,
    /// The clip ends where no position is.
    EndInvalid,
    NestedCompositionMissing,
    NestedTrackMissing,
    /// What was cut out is no valid project.
    ProjectInvalid,
}

impl IsolationError {
    /// The text of the error.
    pub fn message(self) -> (message: &'static str)
        ensures
            message@ == (match self {
                IsolationError::CompositionMissing => "clip composition no longer exists"@,
                IsolationError::TrackMissing => "clip track no longer exists"@,
                IsolationError::ClipMissing => "clip no longer exists"@,
                IsolationError::EndInvalid => "clip end is invalid"@,
                IsolationError::NestedCompositionMissing =>
                    "nested clip composition no longer exists"@,
                IsolationError::NestedTrackMissing => "nested clip track no longer exists"@,
                IsolationError::ProjectInvalid => "isolated clip project is invalid"@,
            }),
    {
        match self {
            IsolationError::CompositionMissing => "clip composition no longer exists",
            IsolationError::TrackMissing => "clip track no longer exists",
            IsolationError::ClipMissing => "clip no longer exists",
            IsolationError::EndInvalid => "clip end is invalid",
            IsolationError::NestedCompositionMissing => "nested clip composition no longer exists",
            IsolationError::NestedTrackMissing => "nested clip track no longer exists",
            IsolationError::ProjectInvalid => "isolated clip project is invalid",
        }
    }
}

/// Whether `place` is the first composition with this id.
pub open spec fn is_composition(graph: ProjectGraph, id: u128, place: int) -> bool {
    &&& 0 <= place < graph.compositions.len()
    &&& graph.compositions[place].id == id
    &&& forall|i: int| 0 <= i < place ==> (#[trigger] graph.compositions[i]).id != id
}

/// Whether `place` is the first track with this id.
pub open spec fn is_track(graph: ProjectGraph, id: u128, place: int) -> bool {
    &&& 0 <= place < graph.tracks.len()
    &&& graph.tracks[place].id == id
    &&& forall|i: int| 0 <= i < place ==> (#[trigger] graph.tracks[i]).id != id
}

/// Whether the project has a composition with this id.
pub open spec fn has_composition(graph: ProjectGraph, id: u128) -> bool {
    exists|place: int| is_composition(graph, id, place)
}

/// Whether the project has a track with this id.
pub open spec fn has_track(graph: ProjectGraph, id: u128) -> bool {
    exists|place: int| is_track(graph, id, place)
}

/// Whether a track has a clip that plays `child`.
pub open spec fn track_plays(track: TrackNode, child: u128) -> bool {
    exists|i: int| 0 <= i < track.clips.len() && (#[trigger] track.clips[i]).nested == Some(child)
}

/// Whether the composition `parent` has a track with a clip that plays `child`.
pub open spec fn plays(graph: ProjectGraph, parent: u128, child: u128) -> bool {
    exists|place: int, slot: int, track: int|
        #![trigger is_composition(graph, parent, place), is_track(
            graph,
            graph.compositions[place].track_ids[slot],
            track,
        )]
        {
            &&& is_composition(graph, parent, place)
            &&& 0 <= slot < graph.compositions[place].track_ids.len()
            &&& is_track(graph, graph.compositions[place].track_ids[slot], track)
            &&& track_plays(graph.tracks[track], child)
        }
}

/// Whether each composition on a way plays the next, and none but the last is `root`.
pub open spec fn is_way(graph: ProjectGraph, root: u128, way: Seq<u128>) -> bool {
    &&& way.len() > 0
    &&& forall|i: int|
        0 <= i < way.len() - 1 ==> #[trigger] way[i] != root && plays(graph, way[i], way[i + 1])
}

/// Whether a clip that plays `seed` comes to play `id`. The clip's own composition is cut
/// down to the clip, so nothing is reached through it.
pub open spec fn reached(graph: ProjectGraph, root: u128, seed: Option<u128>, id: u128) -> bool {
    seed is Some && exists|way: Seq<u128>|
        #[trigger] is_way(graph, root, way) && way.first() == seed->0 && way.last() == id
}

/// Whether a composition that is reached is complete: it exists, and so do its tracks.
pub open spec fn whole(graph: ProjectGraph, id: u128) -> bool {
    has_composition(graph, id) && forall|place: int, slot: int|
        is_composition(graph, id, place) && 0 <= slot
            < graph.compositions[place].track_ids.len() ==> #[trigger] has_track(
            graph,
            graph.compositions[place].track_ids[slot],
        )
}

/// Whether a composition lacks one of its tracks.
pub open spec fn lacks_track(graph: ProjectGraph, id: u128) -> bool {
    has_composition(graph, id) && !whole(graph, id)
}

/// Where the clip is.
pub open spec fn located(
    graph: ProjectGraph,
    target: ClipTarget,
    composition: int,
    track: int,
    clip: int,
) -> bool {
    &&& is_composition(graph, target.composition_id, composition)
    &&& holds_track(graph, target, track)
    &&& forall|i: int| 0 <= i < track ==> !#[trigger] holds_track(graph, target, i)
    &&& holds_clip(graph.tracks[track], target, clip)
    &&& forall|i: int| 0 <= i < clip ==> !#[trigger] holds_clip(graph.tracks[track], target, i)
}

/// Whether a place holds the track that was asked for, in the composition that was asked for.
pub open spec fn holds_track(graph: ProjectGraph, target: ClipTarget, place: int) -> bool {
    &&& 0 <= place < graph.tracks.len()
    &&& graph.tracks[place].id == target.track_id
    &&& graph.tracks[place].composition_id == target.composition_id
}

/// Whether a place holds the clip that was asked for.
pub open spec fn holds_clip(track: TrackNode, target: ClipTarget, place: int) -> bool {
    0 <= place < track.clips.len() && track.clips[place].id == target.clip_id
}

/// The items that are flagged, in order.
pub open spec fn flagged<T>(items: Seq<T>, flags: Seq<bool>) -> Seq<T>
    decreases items.len(),
{
    if items.len() == 0 {
        Seq::empty()
    } else {
        let rest = flagged(items.drop_last(), flags);
        if flags[items.len() - 1] {
            rest.push(items.last())
        } else {
            rest
        }
    }
}

/// Whether a composition other than the clip's own stays.
pub open spec fn keeps_composition(
    graph: ProjectGraph,
    root: u128,
    seed: Option<u128>,
    place: int,
) -> bool {
    graph.compositions[place].id != root && reached(
        graph,
        root,
        seed,
        graph.compositions[place].id,
    )
}

/// Whether a track other than the clip's own stays: a composition that stays has it.
pub open spec fn keeps_track(
    graph: ProjectGraph,
    target: ClipTarget,
    seed: Option<u128>,
    place: int,
) -> bool {
    &&& graph.tracks[place].id != target.track_id
    &&& exists|composition: int|
        0 <= composition < graph.compositions.len() && #[trigger] keeps_composition(
            graph,
            target.composition_id,
            seed,
            composition,
        ) && graph.compositions[composition].track_ids@.contains(graph.tracks[place].id)
}

/// Whether an automation lane stays: all lanes of nested compositions do, and of the clip's
/// own composition those of the clip, of its track, and of the composition's output.
pub open spec fn keeps_lane(
    graph: ProjectGraph,
    target: ClipTarget,
    seed: Option<u128>,
    place: int,
) -> bool {
    let lane = graph.automation[place];
    if lane.composition_id == target.composition_id {
        match lane.target {
            LaneTarget::ClipProcessor { track_id, clip_id } => track_id == target.track_id
                && clip_id == target.clip_id,
            LaneTarget::Track { track_id } => track_id == target.track_id,
            LaneTarget::CompositionOutput => true,
        }
    } else {
        reached(graph, target.composition_id, seed, lane.composition_id)
    }
}

fn find_composition(graph: &ProjectGraph, id: u128) -> (place: Option<usize>)
    ensures
        place is Some <==> has_composition(*graph, id),
        place is Some ==> is_composition(*graph, id, place->0 as int),
{
    let mut index: usize = 0;
    while index < graph.compositions.len()
        invariant
            index <= graph.compositions.len(),
            forall|i: int| 0 <= i < index ==> (#[trigger] graph.compositions[i]).id != id,
        decreases graph.compositions.len() - index,
    {
        if graph.compositions[index].id == id {
            assert(is_composition(*graph, id, index as int));
            return Some(index);
        }
        index += 1;
    }
    None
}

fn find_track(graph: &ProjectGraph, id: u128) -> (place: Option<usize>)
    ensures
        place is Some <==> has_track(*graph, id),
        place is Some ==> is_track(*graph, id, place->0 as int),
{
    let mut index: usize = 0;
    while index < graph.tracks.len()
        invariant
            index <= graph.tracks.len(),
            forall|i: int| 0 <= i < index ==> (#[trigger] graph.tracks[i]).id != id,
        decreases graph.tracks.len() - index,
    {
        if graph.tracks[index].id == id {
            assert(is_track(*graph, id, index as int));
            return Some(index);
        }
        index += 1;
    }
    None
}

fn find_target_track(graph: &ProjectGraph, target: ClipTarget) -> (place: Option<usize>)
    ensures
        place is None ==> forall|i: int| !#[trigger] holds_track(*graph, target, i),
        place is Some ==> holds_track(*graph, target, place->0 as int) && forall|i: int|
            0 <= i < place->0 ==> !#[trigger] holds_track(*graph, target, i),
{
    let mut index: usize = 0;
    while index < graph.tracks.len()
        invariant
            index <= graph.tracks.len(),
            forall|i: int| 0 <= i < index ==> !#[trigger] holds_track(*graph, target, i),
        decreases graph.tracks.len() - index,
    {
        if graph.tracks[index].id == target.track_id && graph.tracks[index].composition_id
            == target.composition_id {
            return Some(index);
        }
        index += 1;
    }
    None
}

fn find_clip(track: &TrackNode, target: ClipTarget) -> (place: Option<usize>)
    ensures
        place is None ==> forall|i: int| !#[trigger] holds_clip(*track, target, i),
        place is Some ==> holds_clip(*track, target, place->0 as int) && forall|i: int|
            0 <= i < place->0 ==> !#[trigger] holds_clip(*track, target, i),
{
    let mut index: usize = 0;
    while index < track.clips.len()
        invariant
            index <= track.clips.len(),
            forall|i: int| 0 <= i < index ==> !#[trigger] holds_clip(*track, target, i),
        decreases track.clips.len() - index,
    {
        if track.clips[index].id == target.clip_id {
            return Some(index);
        }
        index += 1;
    }
    None
}

/// Whether `ids` holds `id`.
pub fn holds_id(ids: &Vec<u128>, id: u128) -> (found: bool)
    ensures
        found == ids@.contains(id),
{
    let mut index: usize = 0;
    while index < ids.len()
        invariant
            index <= ids.len(),
            forall|i: int| 0 <= i < index ==> ids[i] != id,
        decreases ids.len() - index,
    {
        if ids[index] == id {
            return true;
        }
        index += 1;
    }
    false
}

proof fn lemma_way_extends(
    graph: ProjectGraph,
    root: u128,
    seed: Option<u128>,
    parent: u128,
    child: u128,
)
    requires
        reached(graph, root, seed, parent),
        parent != root,
        plays(graph, parent, child),
    ensures
        reached(graph, root, seed, child),
{
    let way = choose|way: Seq<u128>|
        #[trigger] is_way(graph, root, way) && way.first() == seed->0 && way.last() == parent;
    let longer = way.push(child);
    assert forall|i: int| 0 <= i < longer.len() - 1 implies #[trigger] longer[i] != root && plays(
        graph,
        longer[i],
        longer[i + 1],
    ) by {
        if i < way.len() - 1 {
            assert(way[i] != root && plays(graph, way[i], way[i + 1]));
        }
    }
    assert(is_way(graph, root, longer));
    assert(longer.first() == seed->0 && longer.last() == child);
}

proof fn lemma_seed_reached(graph: ProjectGraph, root: u128, seed: u128)
    ensures
        reached(graph, root, Some(seed), seed),
{
    let way = seq![seed];
    assert(is_way(graph, root, way));
    assert(way.first() == seed && way.last() == seed);
}

/// Whether a set of ids holds everything that its members play, but for `root`.
spec fn closed(graph: ProjectGraph, root: u128, ids: Seq<u128>) -> bool {
    forall|parent: u128, child: u128|
        #![trigger ids.contains(parent), plays(graph, parent, child)]
        ids.contains(parent) && parent != root && plays(graph, parent, child) ==> ids.contains(
            child,
        )
}

proof fn lemma_closed_holds_reached(
    graph: ProjectGraph,
    root: u128,
    seed: u128,
    ids: Seq<u128>,
    way: Seq<u128>,
)
    requires
        closed(graph, root, ids),
        ids.contains(seed),
        is_way(graph, root, way),
        way.first() == seed,
    ensures
        ids.contains(way.last()),
    decreases way.len(),
{
    if way.len() > 1 {
        let shorter = way.drop_last();
        assert forall|i: int| 0 <= i < shorter.len() - 1 implies #[trigger] shorter[i] != root
            && plays(graph, shorter[i], shorter[i + 1]) by {
            assert(way[i] != root && plays(graph, way[i], way[i + 1]));
        }
        lemma_closed_holds_reached(graph, root, seed, ids, shorter);
        let i = way.len() - 2;
        assert(way[i] != root && plays(graph, way[i], way[i + 1]));
        assert(shorter.last() == way[i]);
    }
}

/// The ids of the compositions.
spec fn composition_ids(graph: ProjectGraph) -> Seq<u128> {
    graph.compositions@.map_values(|composition: CompositionNode| composition.id)
}

/// A list without repetition, of `root` and of compositions that exist, is no longer than
/// the project has compositions, and one.
proof fn lemma_included_bound(graph: ProjectGraph, root: u128, included: Seq<u128>)
    requires
        included.no_duplicates(),
        forall|i: int|
            0 <= i < included.len() ==> #[trigger] included[i] == root || has_composition(
                graph,
                included[i],
            ),
    ensures
        included.len() <= graph.compositions.len() + 1,
{
    let ids = composition_ids(graph).push(root);
    included.unique_seq_to_set();
    ids.lemma_cardinality_of_set();
    assert(included.to_set().subset_of(ids.to_set())) by {
        assert forall|id: u128| included.to_set().contains(id) implies ids.to_set().contains(id) by {
            let i = choose|i: int| 0 <= i < included.len() && included[i] == id;
            if id == root {
                assert(ids[graph.compositions.len() as int] == root);
            } else {
                let place = choose|place: int| is_composition(graph, id, place);
                assert(ids[place] == id);
            }
        }
    }
    vstd::set_lib::lemma_len_subset(included.to_set(), ids.to_set());
}

/// What some clips play, in order.
pub open spec fn played(clips: Seq<ClipNode>) -> Seq<u128>
    decreases clips.len(),
{
    if clips.len() == 0 {
        Seq::empty()
    } else {
        let rest = played(clips.drop_last());
        match clips.last().nested {
            Some(id) => rest.push(id),
            None => rest,
        }
    }
}

/// The place of the first track with this id.
pub open spec fn track_place(graph: ProjectGraph, id: u128) -> int {
    choose|place: int| is_track(graph, id, place)
}

/// What the tracks with these ids play, in order.
pub open spec fn children(graph: ProjectGraph, track_ids: Seq<u128>) -> Seq<u128>
    decreases track_ids.len(),
{
    if track_ids.len() == 0 {
        Seq::empty()
    } else {
        children(graph, track_ids.drop_last()) + played(
            graph.tracks[track_place(graph, track_ids.last())].clips@,
        )
    }
}

/// The place of the first composition with this id.
pub open spec fn composition_place(graph: ProjectGraph, id: u128) -> int {
    choose|place: int| is_composition(graph, id, place)
}

/// The first thing that is missing of what `pending` plays. What is known is not looked at
/// again; what a composition plays is looked at after what waits already. A project has no
/// more than `room` compositions that are not known.
pub open spec fn first_missing(
    graph: ProjectGraph,
    known: Seq<u128>,
    pending: Seq<u128>,
    room: nat,
) -> Option<IsolationError>
    decreases room, pending.len(),
{
    if pending.len() == 0 {
        None
    } else if known.contains(pending[0]) {
        first_missing(graph, known, pending.skip(1), room)
    } else if !has_composition(graph, pending[0]) {
        Some(IsolationError::NestedCompositionMissing)
    } else if !whole(graph, pending[0]) {
        Some(IsolationError::NestedTrackMissing)
    } else if room == 0 {
        None
    } else {
        first_missing(
            graph,
            known.push(pending[0]),
            pending.skip(1) + children(
                graph,
                graph.compositions[composition_place(graph, pending[0])].track_ids@,
            ),
            (room - 1) as nat,
        )
    }
}

/// The first thing that is missing of what a clip of `root` that plays `seed` plays.
pub open spec fn nested_error(graph: ProjectGraph, root: u128, seed: Option<u128>) -> Option<
    IsolationError,
> {
    first_missing(
        graph,
        seq![root],
        match seed {
            Some(id) => seq![id],
            None => Seq::empty(),
        },
        graph.compositions@.len(),
    )
}

proof fn lemma_track_place(graph: ProjectGraph, id: u128, place: int)
    requires
        is_track(graph, id, place),
    ensures
        track_place(graph, id) == place,
{
    let other = track_place(graph, id);
    assert(is_track(graph, id, other));
    if other < place {
        assert(graph.tracks[other].id != id);
    } else if place < other {
        assert(graph.tracks[place].id != id);
    }
}

proof fn lemma_composition_place(graph: ProjectGraph, id: u128, place: int)
    requires
        is_composition(graph, id, place),
    ensures
        composition_place(graph, id) == place,
{
    let other = composition_place(graph, id);
    assert(is_composition(graph, id, other));
    if other < place {
        assert(graph.compositions[other].id != id);
    } else if place < other {
        assert(graph.compositions[place].id != id);
    }
}

/// Appends to `pending` what the tracks of a composition play.
fn push_children(graph: &ProjectGraph, place: usize, pending: &mut VecDeque<u128>) -> (found: Result<
    (),
    IsolationError,
>)
    requires
        is_composition(*graph, graph.compositions[place as int].id, place as int),
    ensures
        final(pending).len() >= old(pending).len(),
        forall|i: int| 0 <= i < old(pending).len() ==> final(pending)@[i] == old(pending)@[i],
        forall|i: int|
            old(pending).len() <= i < final(pending).len() ==> plays(
                *graph,
                graph.compositions[place as int].id,
                #[trigger] final(pending)@[i],
            ),
        found is Ok <==> whole(*graph, graph.compositions[place as int].id),
        found is Err ==> found->Err_0 == IsolationError::NestedTrackMissing,
        found is Ok ==> final(pending)@ == old(pending)@ + children(
            *graph,
            graph.compositions[place as int].track_ids@,
        ),
        found is Ok ==> forall|child: u128|
            plays(*graph, graph.compositions[place as int].id, child) ==> exists|i: int|
                old(pending).len() <= i < final(pending).len() && #[trigger] final(pending)@[i]
                    == child,
{
    let ghost parent = graph.compositions[place as int].id;
    let ghost start = pending.len() as int;
    let ghost before = pending@;
    let count: usize = graph.compositions[place].track_ids.len();
    let ghost track_ids = graph.compositions[place as int].track_ids@;
    let mut slot: usize = 0;
    assert(pending@ =~= before + children(*graph, track_ids.take(0)));
    while slot < count
        invariant
            slot <= count,
            track_ids == graph.compositions[place as int].track_ids@,
            pending@ == before + children(*graph, track_ids.take(slot as int)),
            place < graph.compositions.len(),
            count == graph.compositions[place as int].track_ids.len(),
            parent == graph.compositions[place as int].id,
            is_composition(*graph, parent, place as int),
            start == before.len(),
            before == old(pending)@,
            pending.len() >= start,
            forall|i: int| 0 <= i < start ==> pending@[i] == before[i],
            forall|i: int|
                start <= i < pending.len() ==> plays(*graph, parent, #[trigger] pending@[i]),
            forall|i: int|
                0 <= i < slot ==> has_track(
                    *graph,
                    #[trigger] graph.compositions[place as int].track_ids[i],
                ),
            forall|i: int, track: int, child: u128|
                #![trigger is_track(*graph, graph.compositions[place as int].track_ids[i], track), track_plays(graph.tracks[track], child)]
                0 <= i < slot && is_track(
                    *graph,
                    graph.compositions[place as int].track_ids[i],
                    track,
                ) && track_plays(graph.tracks[track], child) ==> exists|k: int|
                    start <= k < pending.len() && #[trigger] pending@[k] == child,
        decreases count - slot,
    {
        let track_id: u128 = graph.compositions[place].track_ids[slot];
        match find_track(graph, track_id) {
            None => {
                assert(!whole(*graph, parent)) by {
                    assert(is_composition(*graph, parent, place as int));
                    assert(!has_track(
                        *graph,
                        graph.compositions[place as int].track_ids[slot as int],
                    ));
                }
                return Err(IsolationError::NestedTrackMissing);
            },
            Some(track) => {
                let ghost outer = pending@;
                let clips: usize = graph.tracks[track].clips.len();
                let ghost listed = graph.tracks[track as int].clips@;
                let mut clip: usize = 0;
                assert(pending@ =~= outer + played(listed.take(0)));
                while clip < clips
                    invariant
                        clip <= clips,
                        listed == graph.tracks[track as int].clips@,
                        pending@ == outer + played(listed.take(clip as int)),
                        slot < count,
                        place < graph.compositions.len(),
                        count == graph.compositions[place as int].track_ids.len(),
                        parent == graph.compositions[place as int].id,
                        is_composition(*graph, parent, place as int),
                        track_id == graph.compositions[place as int].track_ids[slot as int],
                        is_track(*graph, track_id, track as int),
                        clips == graph.tracks[track as int].clips.len(),
                        0 <= start <= outer.len() <= pending.len(),
                        forall|i: int| 0 <= i < outer.len() ==> pending@[i] == outer[i],
                        forall|i: int|
                            start <= i < pending.len() ==> plays(
                                *graph,
                                parent,
                                #[trigger] pending@[i],
                            ),
                        forall|i: int|
                            0 <= i < clip && (
                            #[trigger] graph.tracks[track as int].clips[i]).nested is Some
                                ==> exists|k: int|
                                start <= k < pending.len() && #[trigger] pending@[k]
                                    == graph.tracks[track as int].clips[i].nested->0,
                    decreases clips - clip,
                {
                    let ghost inner = pending@;
                    assert(listed.take(clip + 1).drop_last() =~= listed.take(clip as int));
                    if let Some(child) = graph.tracks[track].clips[clip].nested {
                        assert(track_plays(graph.tracks[track as int], child)) by {
                            assert(graph.tracks[track as int].clips[clip as int].nested == Some(
                                child,
                            ));
                        }
                        assert(plays(*graph, parent, child)) by {
                            assert(is_composition(*graph, parent, place as int));
                            assert(is_track(
                                *graph,
                                graph.compositions[place as int].track_ids[slot as int],
                                track as int,
                            ));
                        }
                        pending.push_back(child);
                        assert(pending@[inner.len() as int] == child);
                        assert(forall|k: int| 0 <= k < inner.len() ==> pending@[k] == inner[k]);
                    }
                    assert(pending@ =~= outer + played(listed.take(clip + 1)));
                    clip += 1;
                }
                proof {
                    assert(listed.take(clips as int) =~= listed);
                    lemma_track_place(*graph, track_id, track as int);
                    assert(track_ids.take(slot + 1).drop_last() =~= track_ids.take(slot as int));
                    assert(pending@ =~= before + children(*graph, track_ids.take(slot + 1)));
                }
                assert forall|i: int, other: int, child: u128|
                    0 <= i < slot + 1 && is_track(
                        *graph,
                        graph.compositions[place as int].track_ids[i],
                        other,
                    ) && track_plays(graph.tracks[other], child) implies exists|k: int|
                    start <= k < pending.len() && #[trigger] pending@[k] == child by {
                    if i == slot {
                        assert(other == track) by {
                            if other < track {
                                assert(graph.tracks[other].id != track_id);
                            } else if track < other {
                                assert(graph.tracks[track as int].id != track_id);
                            }
                        }
                        let c = choose|c: int|
                            0 <= c < graph.tracks[other].clips.len() && (
                            #[trigger] graph.tracks[other].clips[c]).nested == Some(child);
                        assert(graph.tracks[track as int].clips[c].nested is Some);
                    } else {
                        let k = choose|k: int|
                            start <= k < outer.len() && #[trigger] outer[k] == child;
                        assert(pending@[k] == child);
                    }
                }
            },
        }
        slot += 1;
    }
    proof {
        assert(track_ids.take(count as int) =~= track_ids);
        assert(whole(*graph, parent)) by {
            assert(has_composition(*graph, parent)) by {
                assert(is_composition(*graph, parent, place as int));
            }
            assert forall|other: int, slot: int|
                is_composition(*graph, parent, other) && 0 <= slot
                    < graph.compositions[other].track_ids.len() implies #[trigger] has_track(
                *graph,
                graph.compositions[other].track_ids[slot],
            ) by {
                assert(other == place) by {
                    if other < place {
                        assert(graph.compositions[other].id != parent);
                    } else if place < other {
                        assert(graph.compositions[place as int].id != parent);
                    }
                }
            }
        }
        assert forall|child: u128| plays(*graph, parent, child) implies exists|i: int|
            start <= i < pending.len() && #[trigger] pending@[i] == child by {
            let (other, slot, track) = choose|other: int, slot: int, track: int|
                #![trigger is_composition(*graph, parent, other), is_track(
                    *graph,
                    graph.compositions[other].track_ids[slot],
                    track,
                )]
                {
                    &&& is_composition(*graph, parent, other)
                    &&& 0 <= slot < graph.compositions[other].track_ids.len()
                    &&& is_track(*graph, graph.compositions[other].track_ids[slot], track)
                    &&& track_plays(graph.tracks[track], child)
                };
            assert(other == place) by {
                if other < place {
                    assert(graph.compositions[other].id != parent);
                } else if place < other {
                    assert(graph.compositions[place as int].id != parent);
                }
            }
        }
    }
    Ok(())
}

/// The compositions that a clip of `root` that plays `seed` keeps, `root` among them.
///
/// A composition or track that is missing on the way is an error.
pub fn included_compositions(graph: &ProjectGraph, root: u128, seed: Option<u128>) -> (included: Result<
    HashSet<u128>,
    IsolationError,
>)
    ensures
        included is Ok <==> forall|id: u128|
            id != root && #[trigger] reached(*graph, root, seed, id) ==> whole(*graph, id),
        included matches Ok(ids) ==> forall|id: u128|
            #[trigger] ids@.contains(id) <==> id == root || reached(*graph, root, seed, id),
        match included {
            Ok(_) => nested_error(*graph, root, seed) is None,
            Err(error) => nested_error(*graph, root, seed) == Some(error),
        },
        included matches Err(error) ==> {
            ||| error == IsolationError::NestedCompositionMissing && exists|id: u128|
                id != root && #[trigger] reached(*graph, root, seed, id) && !has_composition(
                    *graph,
                    id,
                )
            ||| error == IsolationError::NestedTrackMissing && exists|id: u128|
                id != root && #[trigger] reached(*graph, root, seed, id) && lacks_track(*graph, id)
        },
{
    let mut included: HashSet<u128> = HashSet::new();
    included.insert(root);
    let mut pending: VecDeque<u128> = VecDeque::new();
    if let Some(composition) = seed {
        pending.push_back(composition);
        assert(pending@[0] == composition);
        proof {
            lemma_seed_reached(*graph, root, composition);
        }
    }
    let ghost mut order = seq![root];
    let ghost mut heard = pending@;
    let ghost mut head: int = 0;
    assert(order.contains(root)) by {
        assert(order[0] == root);
    }
    assert(included@ =~= order.to_set());
    assert(pending@ =~= heard.skip(0));
    assert(heard.skip(0) =~= match seed {
        Some(id) => seq![id],
        None => Seq::empty(),
    });
    while pending.len() > 0
        invariant
            0 <= head <= heard.len(),
            included@ == order.to_set(),
            pending@ == heard.skip(head),
            nested_error(*graph, root, seed) == first_missing(
                *graph,
                order,
                heard.skip(head),
                (graph.compositions.len() + 1 - order.len()) as nat,
            ),
            order.len() >= 1,
            order[0] == root,
            order.no_duplicates(),
            forall|i: int|
                0 <= i < order.len() ==> #[trigger] order[i] == root || (has_composition(
                    *graph,
                    order[i],
                ) && whole(*graph, order[i]) && reached(*graph, root, seed, order[i])),
            forall|i: int|
                0 <= i < heard.len() ==> reached(*graph, root, seed, #[trigger] heard[i]),
            forall|i: int| 0 <= i < head ==> order.contains(#[trigger] heard[i]),
            forall|parent: u128, child: u128|
                #![trigger order.contains(parent), plays(*graph, parent, child)]
                order.contains(parent) && parent != root && plays(*graph, parent, child)
                    ==> heard.contains(child),
            seed is Some ==> heard.contains(seed->0),
            order.len() <= graph.compositions.len() + 1,
        decreases graph.compositions.len() + 1 - order.len(), heard.len() - head,
    {
        let ghost waiting = heard;
        let id: u128 = match pending.pop_front() {
            Some(id) => id,
            None => {
                return Ok(included);
            },
        };
        let ghost known = order;
        let ghost room = (graph.compositions.len() + 1 - order.len()) as nat;
        assert(waiting.skip(head)[0] == id);
        assert(waiting.skip(head).skip(1) =~= waiting.skip(head + 1));
        assert(pending@ =~= waiting.skip(head + 1));
        if included.contains(&id) {
            proof {
                head = head + 1;
            }
        } else {
            assert(id != root) by {
                assert(order[0] == root);
            }
            match find_composition(graph, id) {
                None => {
                    assert(reached(*graph, root, seed, id));
                    return Err(IsolationError::NestedCompositionMissing);
                },
                Some(place) => {
                    let found = push_children(graph, place, &mut pending);
                    if found.is_err() {
                        assert(reached(*graph, root, seed, id) && lacks_track(*graph, id));
                        return Err(IsolationError::NestedTrackMissing);
                    }
                    included.insert(id);
                    proof {
                        let played = children(*graph, graph.compositions[place as int].track_ids@);
                        order = known.push(id);
                        heard = waiting + played;
                        head = head + 1;
                        assert(included@ =~= order.to_set()) by {
                            assert forall|other: u128| included@.contains(other) == #[trigger]
                                order.to_set().contains(other) by {
                                if known.contains(other) {
                                    let k = choose|k: int|
                                        0 <= k < known.len() && known[k] == other;
                                    assert(order[k] == other);
                                } else if other == id {
                                    assert(order[known.len() as int] == id);
                                }
                            }
                        }
                        assert(pending@ =~= heard.skip(head));
                        assert forall|i: int| waiting.len() <= i < heard.len() implies plays(
                            *graph,
                            id,
                            #[trigger] heard[i],
                        ) by {
                            assert(heard[i] == pending@[i - head]);
                        }
                        assert forall|child: u128| plays(*graph, id, child) implies exists|i: int|
                            waiting.len() <= i < heard.len() && #[trigger] heard[i] == child by {
                            let i = choose|i: int|
                                waiting.len() - head <= i < pending@.len()
                                    && #[trigger] pending@[i] == child;
                            assert(heard[i + head] == child);
                        }
                        assert(order[known.len() as int] == id);
                        assert forall|i: int| 0 <= i < heard.len() implies reached(
                            *graph,
                            root,
                            seed,
                            #[trigger] heard[i],
                        ) by {
                            if i >= waiting.len() {
                                lemma_way_extends(*graph, root, seed, id, heard[i]);
                            } else {
                                assert(heard[i] == waiting[i]);
                            }
                        }
                        assert forall|i: int| 0 <= i < head implies order.contains(
                            #[trigger] heard[i],
                        ) by {
                            if i < head - 1 {
                                assert(waiting[i] == heard[i]);
                                let k = choose|k: int|
                                    0 <= k < known.len() && known[k] == waiting[i];
                                assert(order[k] == heard[i]);
                            } else {
                                assert(heard[i] == id);
                            }
                        }
                        assert forall|parent: u128, child: u128|
                            #![trigger order.contains(parent), plays(*graph, parent, child)]
                            order.contains(parent) && parent != root && plays(
                                *graph,
                                parent,
                                child,
                            ) implies heard.contains(child) by {
                            if parent == id {
                                let i = choose|i: int|
                                    waiting.len() <= i < heard.len() && #[trigger] heard[i]
                                        == child;
                                assert(heard[i] == child);
                            } else {
                                let k = choose|k: int|
                                    0 <= k < order.len() && order[k] == parent;
                                assert(known[k] == parent);
                                assert(known.contains(parent));
                                assert(waiting.contains(child));
                                let i = choose|i: int|
                                    0 <= i < waiting.len() && waiting[i] == child;
                                assert(heard[i] == child);
                            }
                        }
                        if seed is Some {
                            let i = choose|i: int|
                                0 <= i < waiting.len() && waiting[i] == seed->0;
                            assert(heard[i] == seed->0);
                        }
                        assert(order.no_duplicates()) by {
                            assert forall|i: int, j: int|
                                0 <= i < order.len() && 0 <= j < order.len() && i != j
                                implies order[i] != order[j] by {
                                if i < known.len() && j < known.len() {
                                    assert(known[i] != known[j]);
                                } else if i < known.len() {
                                    assert(known.contains(known[i]));
                                } else {
                                    assert(known.contains(known[j]));
                                }
                            }
                        }
                        lemma_included_bound(*graph, root, order);
                        lemma_composition_place(*graph, id, place as int);
                        assert(heard.skip(head) =~= waiting.skip(head) + children(
                            *graph,
                            graph.compositions[place as int].track_ids@,
                        ));
                        assert(order =~= known.push(id));
                    }
                },
            }
        }
    }
    proof {
        assert(closed(*graph, root, order)) by {
            assert forall|parent: u128, child: u128|
                #![trigger order.contains(parent), plays(*graph, parent, child)]
                order.contains(parent) && parent != root && plays(*graph, parent, child)
                implies order.contains(child) by {
                let i = choose|i: int| 0 <= i < heard.len() && heard[i] == child;
                assert(order.contains(heard[i]));
            }
        }
        assert forall|id: u128| #[trigger] order.contains(id) <==> id == root || reached(
            *graph,
            root,
            seed,
            id,
        ) by {
            if order.contains(id) {
                let i = choose|i: int| 0 <= i < order.len() && order[i] == id;
                assert(order[i] == id);
            }
            if id == root {
                assert(order[0] == root);
            } else if reached(*graph, root, seed, id) {
                let way = choose|way: Seq<u128>|
                    #[trigger] is_way(*graph, root, way) && way.first() == seed->0 && way.last()
                        == id;
                let i = choose|i: int| 0 <= i < heard.len() && heard[i] == seed->0;
                assert(order.contains(heard[i]));
                lemma_closed_holds_reached(*graph, root, seed->0, order, way);
            }
        }
        assert forall|id: u128| id != root && #[trigger] reached(*graph, root, seed, id) implies whole(
            *graph,
            id,
        ) by {
            assert(order.contains(id));
            let i = choose|i: int| 0 <= i < order.len() && order[i] == id;
            assert(order[i] == id);
        }
    }
    Ok(included)
}

/// Which compositions stay.
pub open spec fn composition_flags(
    graph: ProjectGraph,
    root: u128,
    seed: Option<u128>,
) -> Seq<bool> {
    Seq::new(
        graph.compositions.len() as nat,
        |place: int| keeps_composition(graph, root, seed, place),
    )
}

/// Which tracks stay.
pub open spec fn track_flags(
    graph: ProjectGraph,
    target: ClipTarget,
    seed: Option<u128>,
) -> Seq<bool> {
    Seq::new(graph.tracks.len() as nat, |place: int| keeps_track(graph, target, seed, place))
}

/// Which automation lanes stay.
pub open spec fn lane_flags(
    graph: ProjectGraph,
    target: ClipTarget,
    seed: Option<u128>,
) -> Seq<bool> {
    Seq::new(graph.automation.len() as nat, |place: int| keeps_lane(graph, target, seed, place))
}

/// What holds of the set that [`included_compositions`] returns.
spec fn is_included(graph: ProjectGraph, root: u128, seed: Option<u128>, ids: Set<u128>) -> bool {
    forall|id: u128|
        #[trigger] ids.contains(id) <==> id == root || reached(graph, root, seed, id)
}

fn flag_compositions(
    graph: &ProjectGraph,
    root: u128,
    included: &HashSet<u128>,
    Ghost(seed): Ghost<Option<u128>>,
) -> (flags: Vec<bool>)
    requires
        is_included(*graph, root, seed, included@),
    ensures
        flags@ == composition_flags(*graph, root, seed),
{
    let mut flags: Vec<bool> = Vec::new();
    let mut index: usize = 0;
    while index < graph.compositions.len()
        invariant
            index <= graph.compositions.len(),
            flags.len() == index,
            is_included(*graph, root, seed, included@),
            forall|i: int|
                0 <= i < index ==> #[trigger] flags[i] == keeps_composition(*graph, root, seed, i),
        decreases graph.compositions.len() - index,
    {
        let id: u128 = graph.compositions[index].id;
        flags.push(id != root && included.contains(&id));
        index += 1;
    }
    assert(flags@ =~= composition_flags(*graph, root, seed));
    flags
}

/// Whether a composition that stays has the track.
fn is_used(graph: &ProjectGraph, kept: &Vec<bool>, track_id: u128) -> (used: bool)
    requires
        kept.len() == graph.compositions.len(),
    ensures
        used == exists|i: int|
            0 <= i < graph.compositions.len() && #[trigger] kept[i]
                && graph.compositions[i].track_ids@.contains(track_id),
{
    let mut index: usize = 0;
    while index < graph.compositions.len()
        invariant
            index <= graph.compositions.len(),
            kept.len() == graph.compositions.len(),
            forall|i: int|
                0 <= i < index && #[trigger] kept[i]
                    ==> !graph.compositions[i].track_ids@.contains(track_id),
        decreases graph.compositions.len() - index,
    {
        if kept[index] && holds_id(&graph.compositions[index].track_ids, track_id) {
            assert(kept[index as int]);
            return true;
        }
        index += 1;
    }
    false
}

fn flag_tracks(
    graph: &ProjectGraph,
    target: ClipTarget,
    kept: &Vec<bool>,
    Ghost(seed): Ghost<Option<u128>>,
) -> (flags: Vec<bool>)
    requires
        kept@ == composition_flags(*graph, target.composition_id, seed),
    ensures
        flags@ == track_flags(*graph, target, seed),
{
    let mut flags: Vec<bool> = Vec::new();
    let mut index: usize = 0;
    while index < graph.tracks.len()
        invariant
            index <= graph.tracks.len(),
            flags.len() == index,
            kept@ == composition_flags(*graph, target.composition_id, seed),
            forall|i: int|
                0 <= i < index ==> #[trigger] flags[i] == keeps_track(*graph, target, seed, i),
        decreases graph.tracks.len() - index,
    {
        let id: u128 = graph.tracks[index].id;
        let used = is_used(graph, kept, id);
        assert(used == exists|composition: int|
            0 <= composition < graph.compositions.len() && #[trigger] keeps_composition(
                *graph,
                target.composition_id,
                seed,
                composition,
            ) && graph.compositions[composition].track_ids@.contains(id)) by {
            assert(forall|i: int|
                0 <= i < graph.compositions.len() ==> kept[i] == #[trigger] keeps_composition(
                    *graph,
                    target.composition_id,
                    seed,
                    i,
                ));
            if used {
                let i = choose|i: int|
                    0 <= i < graph.compositions.len() && #[trigger] kept[i]
                        && graph.compositions[i].track_ids@.contains(id);
                assert(keeps_composition(*graph, target.composition_id, seed, i));
            }
        }
        flags.push(id != target.track_id && used);
        index += 1;
    }
    assert(flags@ =~= track_flags(*graph, target, seed));
    flags
}

fn flag_lanes(
    graph: &ProjectGraph,
    target: ClipTarget,
    included: &HashSet<u128>,
    Ghost(seed): Ghost<Option<u128>>,
) -> (flags: Vec<bool>)
    requires
        is_included(*graph, target.composition_id, seed, included@),
    ensures
        flags@ == lane_flags(*graph, target, seed),
{
    let mut flags: Vec<bool> = Vec::new();
    let mut index: usize = 0;
    while index < graph.automation.len()
        invariant
            index <= graph.automation.len(),
            flags.len() == index,
            is_included(*graph, target.composition_id, seed, included@),
            forall|i: int|
                0 <= i < index ==> #[trigger] flags[i] == keeps_lane(*graph, target, seed, i),
        decreases graph.automation.len() - index,
    {
        let lane = graph.automation[index];
        let keep = if lane.composition_id != target.composition_id {
            included.contains(&lane.composition_id)
        } else {
            match lane.target {
                LaneTarget::ClipProcessor { track_id, clip_id } => track_id == target.track_id
                    && clip_id == target.clip_id,
                LaneTarget::Track { track_id } => track_id == target.track_id,
                LaneTarget::CompositionOutput => true,
            }
        };
        flags.push(keep);
        index += 1;
    }
    assert(flags@ =~= lane_flags(*graph, target, seed));
    flags
}

/// Whether the clip that was asked for is there.
pub open spec fn clip_exists(graph: ProjectGraph, target: ClipTarget) -> bool {
    exists|composition: int, track: int, clip: int|
        located(graph, target, composition, track, clip)
}

/// Where the clip that was asked for is: its composition, its track, and its place there.
pub open spec fn clip_place(graph: ProjectGraph, target: ClipTarget) -> (int, int, int) {
    choose|composition: int, track: int, clip: int|
        located(graph, target, composition, track, clip)
}

/// The clip that was asked for.
pub open spec fn clip_of(graph: ProjectGraph, target: ClipTarget) -> ClipNode {
    let (_, track, clip) = clip_place(graph, target);
    graph.tracks[track].clips[clip]
}

/// Why a clip cannot be cut out. The composition, the track in it and the clip in that are
/// looked for in this order, then the clip's end, then what the clip plays.
pub open spec fn isolation_error(graph: ProjectGraph, target: ClipTarget) -> Option<
    IsolationError,
> {
    if !has_composition(graph, target.composition_id) {
        Some(IsolationError::CompositionMissing)
    } else if !(exists|i: int| #[trigger] holds_track(graph, target, i)) {
        Some(IsolationError::TrackMissing)
    } else if !clip_exists(graph, target) {
        Some(IsolationError::ClipMissing)
    } else {
        let clip = clip_of(graph, target);
        if !(i64::MIN <= clip.start + clip.duration <= i64::MAX) {
            Some(IsolationError::EndInvalid)
        } else {
            nested_error(graph, target.composition_id, clip.nested)
        }
    }
}

/// The clip's own composition, cut down to the clip: it ends with the clip, has the clip's
/// track alone and no groups, and is otherwise as it was.
pub open spec fn isolated_root(graph: ProjectGraph, target: ClipTarget) -> CompositionModel {
    let clip = clip_of(graph, target);
    CompositionModel {
        length: (clip.start + clip.duration) as i64,
        track_ids: seq![target.track_id],
        track_groups: Seq::empty(),
        ..graph.compositions[clip_place(graph, target).0]@
    }
}

/// The clip's own track, cut down to the clip: both can be heard, and are otherwise as they
/// were.
pub open spec fn isolated_track(graph: ProjectGraph, target: ClipTarget) -> TrackModel {
    TrackModel {
        clips: seq![ClipNode { muted: false, ..clip_of(graph, target) }],
        muted: false,
        solo: false,
        ..graph.tracks[clip_place(graph, target).1]@
    }
}

/// The project that holds nothing but one clip and what it plays. The parts that are cut down
/// come last.
pub open spec fn isolated(graph: ProjectGraph, target: ClipTarget) -> ProjectModel {
    let seed = clip_of(graph, target).nested;
    ProjectModel {
        root_composition_id: target.composition_id,
        compositions: flagged(
            graph@.compositions,
            composition_flags(graph, target.composition_id, seed),
        ).push(isolated_root(graph, target)),
        tracks: flagged(graph@.tracks, track_flags(graph, target, seed)).push(
            isolated_track(graph, target),
        ),
        automation: flagged(graph@.automation, lane_flags(graph, target, seed)),
        ..graph@
    }
}

fn copy_ids(ids: &Vec<u128>) -> (copy: Vec<u128>)
    ensures
        copy@ == ids@,
{
    let mut copy: Vec<u128> = Vec::new();
    let mut index: usize = 0;
    while index < ids.len()
        invariant
            index <= ids.len(),
            copy@ == ids@.take(index as int),
        decreases ids.len() - index,
    {
        copy.push(ids[index]);
        assert(ids@.take(index + 1) =~= ids@.take(index as int).push(ids@[index as int]));
        index += 1;
    }
    assert(ids@.take(ids.len() as int) =~= ids@);
    copy
}

fn copy_groups(groups: &Vec<u64>) -> (copy: Vec<u64>)
    ensures
        copy@ == groups@,
{
    let mut copy: Vec<u64> = Vec::new();
    let mut index: usize = 0;
    while index < groups.len()
        invariant
            index <= groups.len(),
            copy@ == groups@.take(index as int),
        decreases groups.len() - index,
    {
        copy.push(groups[index]);
        assert(groups@.take(index + 1) =~= groups@.take(index as int).push(
            groups@[index as int],
        ));
        index += 1;
    }
    assert(groups@.take(groups.len() as int) =~= groups@);
    copy
}

fn copy_clips(clips: &Vec<ClipNode>) -> (copy: Vec<ClipNode>)
    ensures
        copy@ == clips@,
{
    let mut copy: Vec<ClipNode> = Vec::new();
    let mut index: usize = 0;
    while index < clips.len()
        invariant
            index <= clips.len(),
            copy@ == clips@.take(index as int),
        decreases clips.len() - index,
    {
        copy.push(clips[index]);
        assert(clips@.take(index + 1) =~= clips@.take(index as int).push(clips@[index as int]));
        index += 1;
    }
    assert(clips@.take(clips.len() as int) =~= clips@);
    copy
}

impl CompositionNode {
    /// The same composition once more.
    pub fn copy(&self) -> (copy: Self)
        ensures
            copy@ == self@,
    {
        CompositionNode {
            id: self.id,
            length: self.length,
            track_ids: copy_ids(&self.track_ids),
            track_groups: copy_groups(&self.track_groups),
            output_effects: self.output_effects,
            settings: self.settings,
        }
    }
}

impl TrackNode {
    /// The same track once more.
    pub fn copy(&self) -> (copy: Self)
        ensures
            copy@ == self@,
    {
        TrackNode {
            id: self.id,
            composition_id: self.composition_id,
            clips: copy_clips(&self.clips),
            muted: self.muted,
            solo: self.solo,
            volume_bits: self.volume_bits,
            effects: self.effects,
            instrument: self.instrument,
            settings: self.settings,
        }
    }
}

proof fn lemma_flagged_step<T>(items: Seq<T>, flags: Seq<bool>, index: int)
    requires
        0 <= index < items.len(),
    ensures
        flagged(items.take(index + 1), flags) == if flags[index] {
            flagged(items.take(index), flags).push(items[index])
        } else {
            flagged(items.take(index), flags)
        },
{
    assert(items.take(index + 1).drop_last() =~= items.take(index));
}

fn keep_compositions(graph: &ProjectGraph, flags: &Vec<bool>) -> (kept: Vec<CompositionNode>)
    requires
        flags@.len() == graph.compositions@.len(),
    ensures
        composition_models(kept@) == flagged(graph@.compositions, flags@),
{
    let ghost models = graph@.compositions;
    let mut kept: Vec<CompositionNode> = Vec::new();
    let mut index: usize = 0;
    assert(composition_models(kept@) =~= flagged(models.take(0), flags@));
    while index < graph.compositions.len()
        invariant
            index <= graph.compositions.len(),
            flags@.len() == graph.compositions@.len(),
            models == composition_models(graph.compositions@),
            composition_models(kept@) == flagged(models.take(index as int), flags@),
        decreases graph.compositions.len() - index,
    {
        let ghost before = kept@;
        proof {
            lemma_flagged_step(models, flags@, index as int);
        }
        if flags[index] {
            kept.push(graph.compositions[index].copy());
            assert(composition_models(kept@) =~= composition_models(before).push(
                models[index as int],
            ));
        }
        index += 1;
    }
    assert(models.take(models.len() as int) =~= models);
    kept
}

fn keep_tracks(graph: &ProjectGraph, flags: &Vec<bool>) -> (kept: Vec<TrackNode>)
    requires
        flags@.len() == graph.tracks@.len(),
    ensures
        track_models(kept@) == flagged(graph@.tracks, flags@),
{
    let ghost models = graph@.tracks;
    let mut kept: Vec<TrackNode> = Vec::new();
    let mut index: usize = 0;
    assert(track_models(kept@) =~= flagged(models.take(0), flags@));
    while index < graph.tracks.len()
        invariant
            index <= graph.tracks.len(),
            flags@.len() == graph.tracks@.len(),
            models == track_models(graph.tracks@),
            track_models(kept@) == flagged(models.take(index as int), flags@),
        decreases graph.tracks.len() - index,
    {
        let ghost before = kept@;
        proof {
            lemma_flagged_step(models, flags@, index as int);
        }
        if flags[index] {
            kept.push(graph.tracks[index].copy());
            assert(track_models(kept@) =~= track_models(before).push(models[index as int]));
        }
        index += 1;
    }
    assert(models.take(models.len() as int) =~= models);
    kept
}

fn keep_lanes(graph: &ProjectGraph, flags: &Vec<bool>) -> (kept: Vec<LaneNode>)
    requires
        flags@.len() == graph.automation@.len(),
    ensures
        kept@ == flagged(graph.automation@, flags@),
{
    let ghost lanes = graph.automation@;
    let mut kept: Vec<LaneNode> = Vec::new();
    let mut index: usize = 0;
    assert(kept@ =~= flagged(lanes.take(0), flags@));
    while index < graph.automation.len()
        invariant
            index <= graph.automation.len(),
            flags@.len() == graph.automation@.len(),
            lanes == graph.automation@,
            kept@ == flagged(lanes.take(index as int), flags@),
        decreases graph.automation.len() - index,
    {
        proof {
            lemma_flagged_step(lanes, flags@, index as int);
        }
        if flags[index] {
            kept.push(graph.automation[index]);
        }
        index += 1;
    }
    assert(lanes.take(lanes.len() as int) =~= lanes);
    kept
}

proof fn lemma_located_once(
    graph: ProjectGraph,
    target: ClipTarget,
    composition: int,
    track: int,
    clip: int,
)
    requires
        located(graph, target, composition, track, clip),
    ensures
        clip_exists(graph, target),
        clip_place(graph, target) == (composition, track, clip),
{
    let (c, t, k) = clip_place(graph, target);
    assert(located(graph, target, c, t, k));
    if c < composition {
        assert(graph.compositions[c].id != target.composition_id);
    } else if composition < c {
        assert(graph.compositions[composition].id != target.composition_id);
    }
    if t < track {
        assert(!holds_track(graph, target, t));
    } else if track < t {
        assert(!holds_track(graph, target, track));
    }
    if k < clip {
        assert(!holds_clip(graph.tracks[track], target, k));
    } else if clip < k {
        assert(!holds_clip(graph.tracks[track], target, clip));
    }
}

/// Cuts out the project that holds nothing but one clip and what it plays, so that the clip
/// can be rendered alone. The project that it is cut from stays as it is.
pub fn cut_clip_project(graph: &ProjectGraph, target: ClipTarget) -> (project: Result<
    ProjectGraph,
    IsolationError,
>)
    ensures
        match isolation_error(*graph, target) {
            Some(error) => project == Err::<ProjectGraph, IsolationError>(error),
            None => project matches Ok(project) && project@ == isolated(*graph, target),
        },
{
    let composition: usize = match find_composition(graph, target.composition_id) {
        Some(place) => place,
        None => {
            return Err(IsolationError::CompositionMissing);
        },
    };
    let track: usize = match find_target_track(graph, target) {
        Some(place) => place,
        None => {
            return Err(IsolationError::TrackMissing);
        },
    };
    let clip: usize = match find_clip(&graph.tracks[track], target) {
        Some(place) => place,
        None => {
            proof {
                assert forall|c: int, t: int, k: int| !#[trigger] located(*graph, target, c, t, k) by {
                    if located(*graph, target, c, t, k) {
                        assert(t == track) by {
                            if t < track {
                                assert(!holds_track(*graph, target, t));
                            } else if track < t {
                                assert(!holds_track(*graph, target, track as int));
                            }
                        }
                        assert(!holds_clip(graph.tracks[track as int], target, k));
                    }
                }
            }
            return Err(IsolationError::ClipMissing);
        },
    };
    let node: ClipNode = graph.tracks[track].clips[clip];
    proof {
        lemma_located_once(*graph, target, composition as int, track as int, clip as int);
    }
    let length: i64 = match node.start.checked_add(node.duration) {
        Some(end) => end,
        None => {
            return Err(IsolationError::EndInvalid);
        },
    };
    let seed = node.nested;
    let included = match included_compositions(graph, target.composition_id, seed) {
        Ok(included) => included,
        Err(error) => {
            return Err(error);
        },
    };
    let kept = flag_compositions(graph, target.composition_id, &included, Ghost(seed));
    let kept_tracks = flag_tracks(graph, target, &kept, Ghost(seed));
    let kept_lanes = flag_lanes(graph, target, &included, Ghost(seed));
    let mut compositions = keep_compositions(graph, &kept);
    let mut tracks = keep_tracks(graph, &kept_tracks);
    let automation = keep_lanes(graph, &kept_lanes);
    let ghost others = compositions@;
    let ghost other_tracks = tracks@;
    let mut root = graph.compositions[composition].copy();
    root.length = length;
    let mut track_ids: Vec<u128> = Vec::new();
    track_ids.push(target.track_id);
    root.track_ids = track_ids;
    root.track_groups = Vec::new();
    assert(root@ =~= isolated_root(*graph, target));
    let mut own = graph.tracks[track].copy();
    own.muted = false;
    own.solo = false;
    let mut clips: Vec<ClipNode> = Vec::new();
    clips.push(ClipNode { muted: false, ..node });
    own.clips = clips;
    assert(own@ =~= isolated_track(*graph, target));
    compositions.push(root);
    tracks.push(own);
    let project = ProjectGraph {
        root_composition_id: target.composition_id,
        assets: copy_ids(&graph.assets),
        compositions,
        tracks,
        automation,
        settings: graph.settings,
    };
    proof {
        assert(composition_models(project.compositions@) =~= composition_models(others).push(
            root@,
        ));
        assert(track_models(project.tracks@) =~= track_models(other_tracks).push(own@));
        assert(project@ =~= isolated(*graph, target));
    }
    Ok(project)
}

/// The project that holds nothing but one clip and what it plays, given what was cut out and
/// whether that is a valid project. What could not be cut out keeps its error.
pub fn isolated_clip_project(cut: Result<ProjectGraph, IsolationError>, valid: bool) -> (project:
    Result<ProjectGraph, IsolationError>)
    ensures
        project == (match cut {
            Ok(graph) => if valid {
                Ok(graph)
            } else {
                Err(IsolationError::ProjectInvalid)
            },
            Err(error) => Err(error),
        }),
{
    match cut {
        Ok(graph) => if valid {
            Ok(graph)
        } else {
            Err(IsolationError::ProjectInvalid)
        },
        Err(error) => Err(error),
    }
}

/// Nothing else of the clip's own composition is heard: neither that composition nor the
/// clip's track is among the parts that stay whole.
pub proof fn only_the_clip_stays_of_its_composition(
    graph: ProjectGraph,
    target: ClipTarget,
    seed: Option<u128>,
    place: int,
)
    ensures
        graph.compositions[place].id == target.composition_id ==> !keeps_composition(
            graph,
            target.composition_id,
            seed,
            place,
        ),
        graph.tracks[place].id == target.track_id ==> !keeps_track(graph, target, seed, place),
{
}

/// What stays can be rendered: a composition that is played by one that stays, stays too,
/// unless it is the clip's own.
pub proof fn what_stays_is_closed(
    graph: ProjectGraph,
    root: u128,
    seed: Option<u128>,
    parent: int,
    child: int,
)
    requires
        0 <= parent < graph.compositions.len(),
        0 <= child < graph.compositions.len(),
        keeps_composition(graph, root, seed, parent),
        plays(graph, graph.compositions[parent].id, graph.compositions[child].id),
    ensures
        graph.compositions[child].id == root || keeps_composition(graph, root, seed, child),
{
    lemma_way_extends(
        graph,
        root,
        seed,
        graph.compositions[parent].id,
        graph.compositions[child].id,
    );
}

/// Why there is nothing to export.
#[derive(Clone, Copy, Debug, PartialEq, Eq, Structural)]
pub enum ExportError {
    RangeOverflow,
    RangeEmpty,
}

impl ExportError {
    /// The text of the error.
    pub fn message(self) -> (message: &'static str)
        ensures
            message@ == (match self {
                ExportError::RangeOverflow => "clip export range overflow"@,
                ExportError::RangeEmpty => "clip export range is empty"@,
            }),
    {
        match self {
            ExportError::RangeOverflow => "clip export range overflow",
            ExportError::RangeEmpty => "clip export range is empty",
        }
    }
}

/// The pages of an export, of full length but for the last.
pub open spec fn pages_between(start: int, end: int) -> Seq<PageRequest>
    decreases crate::pages::greatest(end - start, 0),
{
    if start >= end {
        Seq::empty()
    } else {
        seq![
            PageRequest {
                start_frame: start as u64,
                frames: least(end - start, AUDIO_PAGE_FRAMES as int) as u64,
            },
        ] + pages_between(start + AUDIO_PAGE_FRAMES, end)
    }
}

/// The pages to render for a clip that starts at `start` on a timeline of `length` frames
/// that rings out for `tail` frames.
pub fn export_pages(start: u64, length: u64, tail: u64) -> (pages: Result<
    Vec<PageRequest>,
    ExportError,
>)
    ensures
        pages == Err::<Vec<PageRequest>, ExportError>(ExportError::RangeOverflow) <==> length
            + tail > u64::MAX,
        pages == Err::<Vec<PageRequest>, ExportError>(ExportError::RangeEmpty) <==> length + tail
            <= u64::MAX && length + tail <= start,
        pages matches Ok(list) ==> list@ == pages_between(start as int, length + tail),
{
    let end: u64 = match length.checked_add(tail) {
        Some(end) => end,
        None => {
            return Err(ExportError::RangeOverflow);
        },
    };
    if end <= start {
        return Err(ExportError::RangeEmpty);
    }
    let mut list: Vec<PageRequest> = Vec::new();
    let mut next: u64 = start;
    let mut finished = false;
    while !finished
        invariant
            start <= next,
            finished || next < end,
            list@ + (if finished {
                Seq::empty()
            } else {
                pages_between(next as int, end as int)
            }) == pages_between(start as int, end as int),
        decreases
                if finished {
                    0int
                } else {
                    1 + (end - next)
                },
    {
        let ghost before = list@;
        let ghost rest = pages_between(next + AUDIO_PAGE_FRAMES, end as int);
        let left: u64 = end - next;
        let frames: u64 = if left <= AUDIO_PAGE_FRAMES {
            left
        } else {
            AUDIO_PAGE_FRAMES
        };
        let page = PageRequest { start_frame: next, frames };
        list.push(page);
        assert(pages_between(next as int, end as int) == seq![page] + rest);
        assert(list@ + rest =~= before + (seq![page] + rest));
        if left <= AUDIO_PAGE_FRAMES {
            finished = true;
            assert(rest =~= Seq::empty());
        } else {
            next = next + AUDIO_PAGE_FRAMES;
        }
    }
    assert(list@ =~= pages_between(start as int, end as int));
    Ok(list)
}

/// The ids that a change of the whole project touches: assets, compositions, tracks and
/// clips, in this order.
pub open spec fn touched_ids(graph: ProjectGraph) -> Seq<u128> {
    graph.assets@ + graph.compositions@.map_values(|composition: CompositionNode| composition.id)
        + graph.tracks@.map_values(|track: TrackNode| track.id) + clip_ids(graph.tracks@)
}

/// The ids of the clips of some tracks.
pub open spec fn clip_ids(tracks: Seq<TrackNode>) -> Seq<u128>
    decreases tracks.len(),
{
    if tracks.len() == 0 {
        Seq::empty()
    } else {
        clip_ids(tracks.drop_last()) + tracks.last().clips@.map_values(|clip: ClipNode| clip.id)
    }
}

/// The ids that a change of the whole project touches.
pub fn changed_ids(graph: &ProjectGraph) -> (ids: Vec<u128>)
    ensures
        ids@ == touched_ids(*graph),
{
    let ghost compositions = graph.compositions@.map_values(
        |composition: CompositionNode| composition.id,
    );
    let ghost tracks = graph.tracks@.map_values(|track: TrackNode| track.id);
    let mut ids: Vec<u128> = Vec::new();
    let mut index: usize = 0;
    while index < graph.assets.len()
        invariant
            index <= graph.assets.len(),
            ids@ == graph.assets@.take(index as int),
        decreases graph.assets.len() - index,
    {
        ids.push(graph.assets[index]);
        assert(graph.assets@.take(index + 1) =~= graph.assets@.take(index as int).push(
            graph.assets@[index as int],
        ));
        index += 1;
    }
    assert(ids@ =~= graph.assets@ + compositions.take(0));
    index = 0;
    while index < graph.compositions.len()
        invariant
            index <= graph.compositions.len(),
            compositions == graph.compositions@.map_values(
                |composition: CompositionNode| composition.id,
            ),
            ids@ == graph.assets@ + compositions.take(index as int),
        decreases graph.compositions.len() - index,
    {
        ids.push(graph.compositions[index].id);
        assert(ids@ =~= graph.assets@ + compositions.take(index + 1));
        index += 1;
    }
    let ghost listed = graph.assets@ + compositions;
    assert(compositions.take(compositions.len() as int) =~= compositions);
    assert(ids@ =~= listed + tracks.take(0));
    index = 0;
    while index < graph.tracks.len()
        invariant
            index <= graph.tracks.len(),
            tracks == graph.tracks@.map_values(|track: TrackNode| track.id),
            ids@ == listed + tracks.take(index as int),
        decreases graph.tracks.len() - index,
    {
        ids.push(graph.tracks[index].id);
        assert(ids@ =~= listed + tracks.take(index + 1));
        index += 1;
    }
    assert(tracks.take(tracks.len() as int) =~= tracks);
    let ghost owners = listed + tracks;
    assert(ids@ =~= owners + clip_ids(graph.tracks@.take(0)));
    index = 0;
    while index < graph.tracks.len()
        invariant
            index <= graph.tracks.len(),
            ids@ == owners + clip_ids(graph.tracks@.take(index as int)),
        decreases graph.tracks.len() - index,
    {
        let ghost done = clip_ids(graph.tracks@.take(index as int));
        let ghost clips = graph.tracks[index as int].clips@.map_values(|clip: ClipNode| clip.id);
        let mut clip: usize = 0;
        assert(ids@ =~= owners + done + clips.take(0));
        while clip < graph.tracks[index].clips.len()
            invariant
                index < graph.tracks.len(),
                clip <= graph.tracks[index as int].clips.len(),
                clips == graph.tracks[index as int].clips@.map_values(|clip: ClipNode| clip.id),
                ids@ == owners + done + clips.take(clip as int),
            decreases graph.tracks[index as int].clips.len() - clip,
        {
            ids.push(graph.tracks[index].clips[clip].id);
            assert(ids@ =~= owners + done + clips.take(clip + 1));
            clip += 1;
        }
        assert(clips.take(clips.len() as int) =~= clips);
        assert(graph.tracks@.take(index + 1).drop_last() =~= graph.tracks@.take(index as int));
        assert(ids@ =~= owners + clip_ids(graph.tracks@.take(index + 1)));
        index += 1;
    }
    assert(graph.tracks@.take(graph.tracks.len() as int) =~= graph.tracks@);
    ids
}

/// The pages of an export tile the range: the first begins where the range does, each next one
/// begins where the one before it ends, and the last ends where the range does. All are full
/// but the last, none is empty, and no two overlap.
pub proof fn exported_pages_tile_the_range(start: int, end: int)
    requires
        0 <= start < end <= u64::MAX,
    ensures
        ({
            let pages = pages_between(start, end);
            &&& pages.len() > 0
            &&& pages[0].start_frame == start
            &&& pages.last().start_frame + pages.last().frames == end
            &&& forall|i: int, j: int|
                0 <= i && j == i + 1 && j < pages.len() ==> (#[trigger] pages[j]).start_frame == (
                #[trigger] pages[i]).start_frame + pages[i].frames
            &&& forall|i: int|
                0 <= i < pages.len() - 1 ==> (#[trigger] pages[i]).frames == 65_536
            &&& 0 < pages.last().frames <= 65_536
            &&& forall|i: int, j: int|
                0 <= i < j < pages.len() ==> (#[trigger] pages[i]).start_frame + pages[i].frames
                    <= (#[trigger] pages[j]).start_frame
        }),
    decreases end - start,
{
    let pages = pages_between(start, end);
    let next = start + AUDIO_PAGE_FRAMES;
    let rest = pages_between(next, end);
    let page = PageRequest {
        start_frame: start as u64,
        frames: least(end - start, AUDIO_PAGE_FRAMES as int) as u64,
    };
    assert(pages == seq![page] + rest);
    if next < end {
        exported_pages_tile_the_range(next, end);
        assert(pages.last() == rest.last());
        assert forall|i: int, j: int| 0 <= i && j == i + 1 && j < pages.len() implies (
        #[trigger] pages[j]).start_frame == (#[trigger] pages[i]).start_frame + pages[i].frames by {
            assert(pages[j] == rest[j - 1]);
            if i > 0 {
                assert(pages[i] == rest[i - 1]);
            }
        }
        assert forall|i: int| 0 <= i < pages.len() - 1 implies (#[trigger] pages[i]).frames
            == 65_536 by {
            if i > 0 {
                assert(pages[i] == rest[i - 1]);
            }
        }
        assert forall|i: int, j: int| 0 <= i < j < pages.len() implies (
        #[trigger] pages[i]).start_frame + pages[i].frames <= (
        #[trigger] pages[j]).start_frame by {
            assert(pages[j] == rest[j - 1]);
            if i > 0 {
                assert(pages[i] == rest[i - 1]);
            } else if j > 1 {
                assert(rest[0].start_frame + rest[0].frames <= rest[j - 1].start_frame);
            }
        }
    } else {
        assert(rest =~= Seq::empty());
        assert(pages =~= seq![page]);
    }
}

/// Every frame of an exported range lies in one of its pages, and in one only.
pub proof fn exported_frames_lie_in_one_page(start: int, end: int, frame: int)
    requires
        0 <= start < end <= u64::MAX,
        start <= frame < end,
    ensures
        exists|i: int|
            0 <= i < pages_between(start, end).len() && (#[trigger] pages_between(
                start,
                end,
            )[i]).start_frame <= frame < pages_between(start, end)[i].start_frame
                + pages_between(start, end)[i].frames,
        forall|i: int, j: int|
            0 <= i < pages_between(start, end).len() && 0 <= j < pages_between(start, end).len()
                && (#[trigger] pages_between(start, end)[i]).start_frame <= frame
                < pages_between(start, end)[i].start_frame + pages_between(start, end)[i].frames
                && (#[trigger] pages_between(start, end)[j]).start_frame <= frame
                < pages_between(start, end)[j].start_frame + pages_between(start, end)[j].frames
                ==> i == j,
    decreases end - start,
{
    exported_pages_tile_the_range(start, end);
    let pages = pages_between(start, end);
    let next = start + AUDIO_PAGE_FRAMES;
    let rest = pages_between(next, end);
    if frame < next {
        assert(pages[0].start_frame <= frame < pages[0].start_frame + pages[0].frames);
    } else {
        exported_frames_lie_in_one_page(next, end, frame);
        let k = choose|k: int|
            0 <= k < rest.len() && (#[trigger] rest[k]).start_frame <= frame
                < rest[k].start_frame + rest[k].frames;
        assert(pages[k + 1] == rest[k]);
    }
}

/// What is cut out plays the clip alone: the composition of the clip holds nothing but its track
/// and ends where the clip does, the track holds nothing but the clip, neither is muted, and the
/// track sounds as it did.
pub proof fn isolated_clips_are_heard_alone(
    graph: ProjectGraph,
    target: ClipTarget,
    composition: int,
    track: int,
    clip: int,
)
    requires
        located(graph, target, composition, track, clip),
        i64::MIN <= graph.tracks[track].clips[clip].start
            + graph.tracks[track].clips[clip].duration <= i64::MAX,
    ensures
        ({
            let project = isolated(graph, target);
            let whole = graph.compositions[composition];
            let heard = graph.tracks[track];
            let part = graph.tracks[track].clips[clip];
            let root = project.compositions.last();
            let kept = project.tracks.last();
            &&& project.root_composition_id == target.composition_id
            &&& root.id == target.composition_id
            &&& root.length == part.start + part.duration
            &&& root.track_ids == seq![target.track_id]
            &&& root.track_groups.len() == 0
            &&& root.output_effects == whole.output_effects && root.settings == whole.settings
            &&& kept.id == target.track_id && kept.composition_id == target.composition_id
            &&& !kept.muted && !kept.solo
            &&& kept.volume_bits == heard.volume_bits && kept.effects == heard.effects
            &&& kept.instrument == heard.instrument && kept.settings == heard.settings
            &&& kept.clips.len() == 1 && !kept.clips[0].muted
            &&& kept.clips[0].id == target.clip_id && kept.clips[0].start == part.start
            &&& kept.clips[0].duration == part.duration && kept.clips[0].nested == part.nested
                && kept.clips[0].settings == part.settings
            &&& project.assets == graph.assets@ && project.settings == graph.settings
        }),
{
    lemma_located_once(graph, target, composition, track, clip);
}

/// The parts that stay are those that are flagged, in their order.
pub proof fn flagged_parts_stay_in_order<T>(items: Seq<T>, flags: Seq<bool>, item: T, flag: bool)
    requires
        flags.len() == items.len(),
    ensures
        flagged(Seq::<T>::empty(), flags) == Seq::<T>::empty(),
        flag ==> flagged(items.push(item), flags.push(flag)) == flagged(items, flags).push(item),
        !flag ==> flagged(items.push(item), flags.push(flag)) == flagged(items, flags),
        forall|i: int|
            0 <= i < items.len() && #[trigger] flags[i] ==> flagged(items, flags).contains(
                items[i],
            ),
{
    assert(items.push(item).drop_last() =~= items);
    lemma_flags_agree(items, flags, flags.push(flag));
    lemma_flagged_are_there(items, flags);
}

proof fn lemma_flags_agree<T>(items: Seq<T>, flags: Seq<bool>, others: Seq<bool>)
    requires
        items.len() <= flags.len() <= others.len(),
        forall|i: int| 0 <= i < flags.len() ==> flags[i] == others[i],
    ensures
        flagged(items, flags) == flagged(items, others),
    decreases items.len(),
{
    if items.len() > 0 {
        lemma_flags_agree(items.drop_last(), flags, others);
    }
}

proof fn lemma_flagged_are_there<T>(items: Seq<T>, flags: Seq<bool>)
    requires
        items.len() <= flags.len(),
    ensures
        forall|i: int|
            0 <= i < items.len() && #[trigger] flags[i] ==> flagged(items, flags).contains(
                items[i],
            ),
    decreases items.len(),
{
    if items.len() > 0 {
        let less = items.drop_last();
        lemma_flagged_are_there(less, flags);
        let before = flagged(less, flags);
        let after = flagged(items, flags);
        assert forall|i: int| 0 <= i < items.len() && #[trigger] flags[i] implies after.contains(
            items[i],
        ) by {
            if i < less.len() {
                assert(before.contains(less[i]));
                let k = choose|k: int| 0 <= k < before.len() && before[k] == less[i];
                assert(after[k] == items[i]);
            } else {
                assert(after[before.len() as int] == items[i]);
            }
        }
    }
}

/// Of the automation of the clip's own composition only that of the clip, of its track and of the
/// output stays.
pub proof fn automation_of_other_parts_goes(
    graph: ProjectGraph,
    target: ClipTarget,
    seed: Option<u128>,
    place: int,
)
    requires
        0 <= place < graph.automation.len(),
        graph.automation[place].composition_id == target.composition_id,
    ensures
        graph.automation[place].target is CompositionOutput ==> keeps_lane(
            graph,
            target,
            seed,
            place,
        ),
        graph.automation[place].target matches LaneTarget::Track { track_id } ==> (keeps_lane(
            graph,
            target,
            seed,
            place,
        ) <==> track_id == target.track_id),
        graph.automation[place].target matches LaneTarget::ClipProcessor { track_id, clip_id }
            ==> (keeps_lane(graph, target, seed, place) <==> track_id == target.track_id && clip_id
            == target.clip_id),
{
}

/// The composition that the clip plays stays, and whatever that plays in turn.
pub proof fn what_the_clip_plays_stays(
    graph: ProjectGraph,
    root: u128,
    seed: u128,
    child: u128,
)
    requires
        seed != root,
        plays(graph, seed, child),
    ensures
        reached(graph, root, Some(seed), seed),
        reached(graph, root, Some(seed), child),
        !reached(graph, root, None, child),
{
    lemma_seed_reached(graph, root, seed);
    lemma_way_extends(graph, root, Some(seed), seed, child);
}

/// Nothing is cut out where the composition, the track or the clip is missing, or where the clip
/// ends where no position is: the first of these is told.
pub proof fn missing_parts_are_told(graph: ProjectGraph, target: ClipTarget)
    ensures
        ({
            let error = isolation_error(graph, target);
            let known = has_composition(graph, target.composition_id);
            let held = exists|i: int|
                0 <= i < graph.tracks.len() && (#[trigger] graph.tracks[i]).id == target.track_id
                    && graph.tracks[i].composition_id == target.composition_id;
            &&& !known <==> error == Some(IsolationError::CompositionMissing)
            &&& known && !held <==> error == Some(IsolationError::TrackMissing)
            &&& known && held && !clip_exists(graph, target) ==> error == Some(
                IsolationError::ClipMissing,
            )
            &&& known && held && clip_exists(graph, target) ==> {
                let clip = clip_of(graph, target);
                !(i64::MIN <= clip.start + clip.duration <= i64::MAX) ==> error == Some(
                    IsolationError::EndInvalid,
                )
            }
        }),
{
    let held = exists|i: int|
        0 <= i < graph.tracks.len() && (#[trigger] graph.tracks[i]).id == target.track_id
            && graph.tracks[i].composition_id == target.composition_id;
    if held {
        let i = choose|i: int|
            0 <= i < graph.tracks.len() && (#[trigger] graph.tracks[i]).id == target.track_id
                && graph.tracks[i].composition_id == target.composition_id;
        assert(holds_track(graph, target, i));
    }
    if exists|i: int| #[trigger] holds_track(graph, target, i) {
        let i = choose|i: int| #[trigger] holds_track(graph, target, i);
        assert(graph.tracks[i].id == target.track_id);
    }
    if known_nested(graph, target) {
        lemma_nested_kinds(
            graph,
            seq![target.composition_id],
            match clip_of(graph, target).nested {
                Some(id) => seq![id],
                None => Seq::empty(),
            },
            graph.compositions@.len(),
        );
    }
}

spec fn known_nested(graph: ProjectGraph, target: ClipTarget) -> bool {
    has_composition(graph, target.composition_id) && clip_exists(graph, target)
}

proof fn lemma_nested_kinds(
    graph: ProjectGraph,
    known: Seq<u128>,
    pending: Seq<u128>,
    room: nat,
)
    ensures
        first_missing(graph, known, pending, room) matches Some(error) ==> error
            == IsolationError::NestedCompositionMissing || error
            == IsolationError::NestedTrackMissing,
    decreases room, pending.len(),
{
    if pending.len() > 0 {
        if known.contains(pending[0]) {
            lemma_nested_kinds(graph, known, pending.skip(1), room);
        } else if room > 0 {
            lemma_nested_kinds(
                graph,
                known.push(pending[0]),
                pending.skip(1) + children(
                    graph,
                    graph.compositions[composition_place(graph, pending[0])].track_ids@,
                ),
                (room - 1) as nat,
            );
        }
    }
}

/// A new project touches everything in it: every asset, composition, track and clip.
pub proof fn new_projects_touch_everything(graph: ProjectGraph, track: int, clip: int, place: int)
    ensures
        0 <= place < graph.assets.len() ==> touched_ids(graph).contains(graph.assets@[place]),
        0 <= place < graph.compositions.len() ==> touched_ids(graph).contains(
            graph.compositions@[place].id,
        ),
        0 <= track < graph.tracks.len() ==> touched_ids(graph).contains(graph.tracks@[track].id),
        0 <= track < graph.tracks.len() && 0 <= clip < graph.tracks@[track].clips.len()
            ==> touched_ids(graph).contains(graph.tracks@[track].clips@[clip].id),
{
    let first = graph.assets@;
    let second = graph.compositions@.map_values(|composition: CompositionNode| composition.id);
    let third = graph.tracks@.map_values(|track: TrackNode| track.id);
    let fourth = clip_ids(graph.tracks@);
    let all = touched_ids(graph);
    assert(all == first + second + third + fourth);
    if 0 <= place < graph.assets.len() {
        assert(all[place] == first[place]);
    }
    if 0 <= place < graph.compositions.len() {
        assert(all[first.len() + place] == second[place]);
    }
    if 0 <= track < graph.tracks.len() {
        assert(all[first.len() + second.len() + track] == third[track]);
        if 0 <= clip < graph.tracks@[track].clips.len() {
            lemma_clip_ids(graph.tracks@, track, clip);
            let id = graph.tracks@[track].clips@[clip].id;
            let k = choose|k: int| 0 <= k < fourth.len() && fourth[k] == id;
            assert(all[first.len() + second.len() + third.len() + k] == id);
        }
    }
}

proof fn lemma_clip_ids(tracks: Seq<TrackNode>, track: int, clip: int)
    requires
        0 <= track < tracks.len(),
        0 <= clip < tracks[track].clips.len(),
    ensures
        clip_ids(tracks).contains(tracks[track].clips@[clip].id),
    decreases tracks.len(),
{
    let less = tracks.drop_last();
    let before = clip_ids(less);
    let last = tracks.last().clips@.map_values(|clip: ClipNode| clip.id);
    let all = clip_ids(tracks);
    assert(all == before + last);
    if track < less.len() {
        lemma_clip_ids(less, track, clip);
        let id = less[track].clips@[clip].id;
        let k = choose|k: int| 0 <= k < before.len() && before[k] == id;
        assert(all[k] == id);
    } else {
        assert(all[before.len() + clip] == last[clip]);
    }
}

/// The compositions that clips play are those that the clips name.
pub proof fn played_compositions_are_named_by_clips(clips: Seq<ClipNode>, id: u128)
    ensures
        played(clips).contains(id) <==> exists|i: int|
            0 <= i < clips.len() && (#[trigger] clips[i]).nested == Some(id),
    decreases clips.len(),
{
    let all = played(clips);
    if clips.len() > 0 {
        let less = clips.drop_last();
        played_compositions_are_named_by_clips(less, id);
        let before = played(less);
        assert(clips[clips.len() - 1] == clips.last());
        if before.contains(id) {
            let k = choose|k: int| 0 <= k < before.len() && before[k] == id;
            assert(all[k] == id);
            let i = choose|i: int| 0 <= i < less.len() && (#[trigger] less[i]).nested == Some(id);
            assert(clips[i] == less[i]);
        }
        if clips.last().nested == Some(id) {
            assert(all[before.len() as int] == id);
        }
        if all.contains(id) && !before.contains(id) {
            let k = choose|k: int| 0 <= k < all.len() && all[k] == id;
            if k < before.len() {
                assert(before[k] == id);
            }
        }
        if exists|i: int| 0 <= i < clips.len() && (#[trigger] clips[i]).nested == Some(id) {
            let i = choose|i: int| 0 <= i < clips.len() && (#[trigger] clips[i]).nested == Some(id);
            if i < less.len() {
                assert(less[i] == clips[i]);
            }
        }
    }
}

/// A composition and a track stand at one place: the first of their id.
pub proof fn parts_stand_at_one_place(graph: ProjectGraph, id: u128, place: int, other: int)
    ensures
        is_composition(graph, id, place) && is_composition(graph, id, other) ==> place == other,
        is_track(graph, id, place) && is_track(graph, id, other) ==> place == other,
        is_composition(graph, id, place) ==> 0 <= place < graph.compositions.len()
            && graph.compositions@[place].id == id,
        is_track(graph, id, place) ==> 0 <= place < graph.tracks.len() && graph.tracks@[place].id
            == id,
        0 <= place < graph.compositions.len() && graph.compositions@[place].id == id
            ==> has_composition(graph, id),
    decreases place,
{
    if is_composition(graph, id, place) && is_composition(graph, id, other) {
        if place < other {
            assert(graph.compositions[place].id != id);
        } else if other < place {
            assert(graph.compositions[other].id != id);
        }
    }
    if is_track(graph, id, place) && is_track(graph, id, other) {
        if place < other {
            assert(graph.tracks[place].id != id);
        } else if other < place {
            assert(graph.tracks[other].id != id);
        }
    }
    if 0 <= place < graph.compositions.len() && graph.compositions@[place].id == id {
        if exists|i: int| 0 <= i < place && (#[trigger] graph.compositions@[i]).id == id {
            let i = choose|i: int| 0 <= i < place && (#[trigger] graph.compositions@[i]).id == id;
            parts_stand_at_one_place(graph, id, i, i);
        } else {
            assert forall|i: int| 0 <= i < place implies (
            #[trigger] graph.compositions[i]).id != id by {
                assert(graph.compositions@[i].id != id);
            }
            assert(is_composition(graph, id, place));
        }
    }
}

/// A track plays the compositions that its clips name, and a composition plays those of its
/// tracks.
pub proof fn tracks_play_what_their_clips_name(
    graph: ProjectGraph,
    parent: u128,
    place: int,
    slot: int,
    track: int,
    clip: int,
    child: u128,
)
    requires
        is_composition(graph, parent, place),
        0 <= slot < graph.compositions[place].track_ids.len(),
        is_track(graph, graph.compositions[place].track_ids[slot], track),
        0 <= clip < graph.tracks[track].clips.len(),
    ensures
        graph.tracks[track].clips[clip].nested == Some(child) ==> track_plays(
            graph.tracks[track],
            child,
        ) && plays(graph, parent, child),
        track_plays(graph.tracks[track], child) ==> played(
            graph.tracks[track].clips@,
        ).contains(child),
{
    played_compositions_are_named_by_clips(graph.tracks[track].clips@, child);
    if track_plays(graph.tracks[track], child) {
        let i = choose|i: int|
            0 <= i < graph.tracks[track].clips.len() && (
            #[trigger] graph.tracks[track].clips[i]).nested == Some(child);
        assert(graph.tracks[track].clips@[i].nested == Some(child));
    }
}

/// A track stays exactly if it is another than the clip's and a composition that stays holds it;
/// a composition is whole if all of its tracks are there.
pub proof fn tracks_stay_with_their_composition(
    graph: ProjectGraph,
    target: ClipTarget,
    seed: Option<u128>,
    place: int,
    composition: int,
    slot: int,
)
    requires
        0 <= composition < graph.compositions.len(),
    ensures
        keeps_composition(graph, target.composition_id, seed, composition)
            && graph.compositions[composition].track_ids@.contains(graph.tracks[place].id)
            && graph.tracks[place].id != target.track_id ==> keeps_track(
            graph,
            target,
            seed,
            place,
        ),
        (forall|i: int|
            0 <= i < graph.compositions.len() && #[trigger] keeps_composition(
                graph,
                target.composition_id,
                seed,
                i,
            ) ==> !graph.compositions[i].track_ids@.contains(graph.tracks[place].id))
            ==> !keeps_track(graph, target, seed, place),
        keeps_composition(graph, target.composition_id, seed, composition)
            ==> graph.compositions[composition].id != target.composition_id && reached(
            graph,
            target.composition_id,
            seed,
            graph.compositions[composition].id,
        ),
        whole(graph, graph.compositions[composition].id) && is_composition(
            graph,
            graph.compositions[composition].id,
            composition,
        ) && 0 <= slot < graph.compositions[composition].track_ids.len() ==> has_track(
            graph,
            graph.compositions[composition].track_ids[slot],
        ),
{
}

} // verus!
