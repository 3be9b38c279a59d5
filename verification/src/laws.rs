//! What holds of every world when a scene is reported ready.
use vstd::prelude::*;
use crate::model::{AnimationToPlay, EntityData};
use crate::model::{after_scene_ready, is_descendant, is_started, pending, playing_forever, well_formed};

verus! {

/// A scene-ready notification leaves the hierarchy and the pending animations as they were,
/// and takes no animation player away.
pub proof fn lemma_ready_keeps_structure(s: Seq<EntityData>, target: int)
    ensures
        after_scene_ready(s, target).len() == s.len(),
        forall|e: int|
            0 <= e < s.len() ==> {
                &&& (#[trigger] after_scene_ready(s, target)[e]).parent == s[e].parent
                &&& after_scene_ready(s, target)[e].marker == s[e].marker
                &&& (after_scene_ready(s, target)[e].player is Some) == (s[e].player is Some)
            },
        well_formed(s) ==> well_formed(after_scene_ready(s, target)),
{
    let t = after_scene_ready(s, target);
    if well_formed(s) {
        assert forall|e: int| 0 <= e < t.len() implies match (#[trigger] t[e]).parent {
            Some(p) => p < e,
            None => true,
        } by {
            assert(s[e].parent == t[e].parent);
        }
    }
}

/// Whatever lies below an entity was spawned after it, so no entity lies below itself.
pub proof fn lemma_descendant_spawned_later(s: Seq<EntityData>, e: int, ancestor: int)
    requires
        is_descendant(s, e, ancestor),
    ensures
        ancestor < e,
    decreases e,
{
    match s[e].parent {
        Some(p) => {
            if p != ancestor {
                lemma_descendant_spawned_later(s, p as int, ancestor);
            }
        },
        None => {},
    }
}

/// Whether one entity lies below another depends on the parents alone.
pub proof fn lemma_descendant_by_parents(
    s: Seq<EntityData>,
    t: Seq<EntityData>,
    e: int,
    ancestor: int,
)
    requires
        s.len() == t.len(),
        forall|k: int| 0 <= k < s.len() ==> (#[trigger] s[k]).parent == t[k].parent,
    ensures
        is_descendant(s, e, ancestor) == is_descendant(t, e, ancestor),
    decreases e,
{
    if 0 <= e < s.len() {
        assert(s[e].parent == t[e].parent);
        match s[e].parent {
            Some(p) => {
                if p < e && p != ancestor {
                    lemma_descendant_by_parents(s, t, p as int, ancestor);
                }
            },
            None => {},
        }
    }
}

/// Where the entity whose scene is ready carries a pending animation, every entity below
/// it that has an animation player ends up playing the marker's clip, repeating forever,
/// and linked to the marker's graph.
pub proof fn lemma_descendant_players_started(
    s: Seq<EntityData>,
    target: int,
    marker: AnimationToPlay,
    e: int,
)
    requires
        pending(s, target) == Some(marker),
        is_descendant(s, e, target),
        s[e].player is Some,
    ensures
        after_scene_ready(s, target)[e].player == Some(playing_forever(marker)),
        after_scene_ready(s, target)[e].graph == Some(marker.graph_handle),
        after_scene_ready(s, target)[e].parent == s[e].parent,
        after_scene_ready(s, target)[e].marker == s[e].marker,
{
}

/// Every entity that does not lie below the target, or has no animation player, is left as
/// it was.
pub proof fn lemma_others_untouched(s: Seq<EntityData>, target: int, e: int)
    requires
        0 <= e < s.len(),
        !is_descendant(s, e, target) || s[e].player is None,
    ensures
        after_scene_ready(s, target)[e] == s[e],
{
}

/// Where the entity whose scene is ready carries no pending animation, nothing changes.
pub proof fn lemma_no_marker_no_change(s: Seq<EntityData>, target: int)
    requires
        pending(s, target) is None,
    ensures
        after_scene_ready(s, target) == s,
{
    assert(after_scene_ready(s, target) =~= s);
}

/// Where no entity below the target has an animation player, nothing changes.
pub proof fn lemma_no_player_no_change(s: Seq<EntityData>, target: int)
    requires
        forall|e: int| is_descendant(s, e, target) ==> s[e].player is None,
    ensures
        after_scene_ready(s, target) == s,
        forall|e: int| !is_started(s, target, e),
{
    assert(after_scene_ready(s, target) =~= s);
}

/// A second notification for the same entity acts on the same players as the first and
/// changes nothing that the first one did not.
pub proof fn lemma_ready_idempotent(s: Seq<EntityData>, target: int)
    ensures
        after_scene_ready(after_scene_ready(s, target), target) == after_scene_ready(s, target),
        forall|e: int|
            is_started(after_scene_ready(s, target), target, e) == is_started(s, target, e),
{
    let t = after_scene_ready(s, target);
    let u = after_scene_ready(t, target);
    lemma_ready_keeps_structure(s, target);
    assert forall|e: int| is_started(t, target, e) == is_started(s, target, e) by {
        lemma_descendant_by_parents(s, t, e, target);
    }
    assert(u =~= t);
}

} // verus!
