//! Marking nested compositions with the state of their renders.
use crate::controller::RenderState;
use vstd::prelude::*;

verus! {

/// A clip of the arrangement.
#[derive(Clone, Copy, Debug, PartialEq, Eq, Structural)]
pub struct ShownClip {
    pub id: u128,
    /// The clip places another composition.
    pub nested: bool,
}

/// A track of the arrangement.
#[derive(Debug)]
pub struct ShownTrack {
    pub clips: Vec<ShownClip>,
}

/// A composition.
#[derive(Debug)]
pub struct ShownComposition {
    pub tracks: Vec<ShownTrack>,
}

/// The marks for the nested compositions among clips.
pub open spec fn clip_marks(clips: Seq<ShownClip>, state: RenderState) -> Seq<(u128, RenderState)>
    decreases clips.len(),
{
    if clips.len() == 0 {
        Seq::empty()
    } else {
        let before = clip_marks(clips.drop_last(), state);
        if clips.last().nested {
            before.push((clips.last().id, state))
        } else {
            before
        }
    }
}

/// The marks for the nested compositions on tracks.
pub open spec fn track_marks(tracks: Seq<ShownTrack>, state: RenderState) -> Seq<
    (u128, RenderState),
>
    decreases tracks.len(),
{
    if tracks.len() == 0 {
        Seq::empty()
    } else {
        track_marks(tracks.drop_last(), state) + clip_marks(tracks.last().clips@, state)
    }
}

/// The marks for the nested compositions of all compositions.
pub open spec fn marks(compositions: Seq<ShownComposition>, state: RenderState) -> Seq<
    (u128, RenderState),
>
    decreases compositions.len(),
{
    if compositions.len() == 0 {
        Seq::empty()
    } else {
        marks(compositions.drop_last(), state) + track_marks(
            compositions.last().tracks@,
            state,
        )
    }
}

fn mark_clips(found: &mut Vec<(u128, RenderState)>, clips: &Vec<ShownClip>, state: RenderState)
    ensures
        final(found)@ == old(found)@ + clip_marks(clips@, state),
{
    let mut index: usize = 0;
    assert(clips@.take(0) =~= Seq::empty());
    assert(found@ =~= old(found)@ + clip_marks(clips@.take(0), state));
    while index < clips.len()
        invariant
            index <= clips.len(),
            found@ == old(found)@ + clip_marks(clips@.take(index as int), state),
        decreases clips.len() - index,
    {
        assert(clips@.take(index + 1).drop_last() =~= clips@.take(index as int));
        if clips[index].nested {
            found.push((clips[index].id, state));
        }
        index += 1;
        assert(found@ =~= old(found)@ + clip_marks(clips@.take(index as int), state));
    }
    assert(clips@.take(index as int) =~= clips@);
}

fn mark_tracks(found: &mut Vec<(u128, RenderState)>, tracks: &Vec<ShownTrack>, state: RenderState)
    ensures
        final(found)@ == old(found)@ + track_marks(tracks@, state),
{
    let mut index: usize = 0;
    assert(tracks@.take(0) =~= Seq::empty());
    assert(found@ =~= old(found)@ + track_marks(tracks@.take(0), state));
    while index < tracks.len()
        invariant
            index <= tracks.len(),
            found@ == old(found)@ + track_marks(tracks@.take(index as int), state),
        decreases tracks.len() - index,
    {
        assert(tracks@.take(index + 1).drop_last() =~= tracks@.take(index as int));
        mark_clips(found, &tracks[index].clips, state);
        index += 1;
        assert(found@ =~= old(found)@ + track_marks(tracks@.take(index as int), state));
    }
    assert(tracks@.take(index as int) =~= tracks@);
}

/// The clips that place another composition, each with the state that they are to show,
/// in the order of the project.
pub fn set_render_state(compositions: &Vec<ShownComposition>, state: RenderState) -> (found: Vec<
    (u128, RenderState),
>)
    ensures
        found@ == marks(compositions@, state),
{
    let mut found: Vec<(u128, RenderState)> = Vec::new();
    let mut index: usize = 0;
    assert(compositions@.take(0) =~= Seq::empty());
    while index < compositions.len()
        invariant
            index <= compositions.len(),
            found@ == marks(compositions@.take(index as int), state),
        decreases compositions.len() - index,
    {
        assert(compositions@.take(index + 1).drop_last() =~= compositions@.take(index as int));
        mark_tracks(&mut found, &compositions[index].tracks, state);
        index += 1;
    }
    assert(compositions@.take(index as int) =~= compositions@);
    found
}

/// Exactly the clips that place another composition are marked, with the state that was set.
pub proof fn nested_clips_are_marked(clips: Seq<ShownClip>, state: RenderState, clip: ShownClip)
    ensures
        clip_marks(Seq::empty(), state) == Seq::<(u128, RenderState)>::empty(),
        clip.nested ==> clip_marks(clips.push(clip), state) == clip_marks(clips, state).push(
            (clip.id, state),
        ),
        !clip.nested ==> clip_marks(clips.push(clip), state) == clip_marks(clips, state),
        forall|i: int|
            0 <= i < clips.len() && (#[trigger] clips[i]).nested ==> clip_marks(
                clips,
                state,
            ).contains((clips[i].id, state)),
        forall|i: int|
            0 <= i < clip_marks(clips, state).len() ==> (#[trigger] clip_marks(clips, state)[i]).1
                == state,
    decreases clips.len(),
{
    assert(clips.push(clip).drop_last() =~= clips);
    if clips.len() > 0 {
        let less = clips.drop_last();
        nested_clips_are_marked(less, state, clip);
        let before = clip_marks(less, state);
        let after = clip_marks(clips, state);
        assert forall|i: int| 0 <= i < clips.len() && (
        #[trigger] clips[i]).nested implies after.contains((clips[i].id, state)) by {
            if i < less.len() {
                assert(less[i] == clips[i]);
                let k = choose|k: int| 0 <= k < before.len() && before[k] == (less[i].id, state);
                assert(after[k] == before[k]);
            } else {
                assert(after[before.len() as int] == (clips[i].id, state));
            }
        }
    }
}

/// The clips of every track of every composition are marked, one after the other.
pub proof fn every_track_is_marked(
    compositions: Seq<ShownComposition>,
    composition: ShownComposition,
    tracks: Seq<ShownTrack>,
    track: ShownTrack,
    state: RenderState,
)
    ensures
        marks(Seq::empty(), state) == Seq::<(u128, RenderState)>::empty(),
        track_marks(Seq::empty(), state) == Seq::<(u128, RenderState)>::empty(),
        marks(compositions.push(composition), state) == marks(compositions, state) + track_marks(
            composition.tracks@,
            state,
        ),
        track_marks(tracks.push(track), state) == track_marks(tracks, state) + clip_marks(
            track.clips@,
            state,
        ),
{
    assert(compositions.push(composition).drop_last() =~= compositions);
    assert(tracks.push(track).drop_last() =~= tracks);
}

} // verus!
