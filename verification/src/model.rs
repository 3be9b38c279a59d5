//! The mathematical model: a world is a sequence of entity records, an entity is a position
//! in it, and a child always stands after its parent.
use vstd::prelude::*;

verus! {

/// An entity is named by the position at which it was spawned.
pub type Entity = usize;

/// The intent to play one clip of an animation graph, attached to the entity that asked
/// for a scene.
#[derive(Clone, Copy, Debug, PartialEq, Eq, Structural)]
pub struct AnimationToPlay {
    /// The key under which the caller keeps the animation graph.
    pub graph_handle: u64,
    /// The node of that graph that is to be played.
    pub index: u32,
}

/// How often a clip is played again once it has ended.
#[derive(Clone, Copy, Debug, PartialEq, Eq, Structural)]
pub enum RepeatAnimation {
    Never,
    Count(u32),
    Forever,
}

/// A clip that a player has been told to play.
#[derive(Clone, Copy, Debug, PartialEq, Eq, Structural)]
pub struct Playback {
    pub index: u32,
    pub repeat: RepeatAnimation,
}

/// The capability to play animations. `playing` is the clip it was last told to play.
#[derive(Clone, Copy, Debug, PartialEq, Eq)]
pub struct AnimationPlayer {
    pub playing: Option<Playback>,
}

/// What the world knows of one entity.
#[derive(Clone, Copy, Debug, PartialEq, Eq)]
pub struct EntityData {
    /// The entity that owns this one, if any.
    pub parent: Option<Entity>,
    /// The pending animation, on an entity that asked for a scene.
    pub marker: Option<AnimationToPlay>,
    /// The animation player, on an entity that can play clips.
    pub player: Option<AnimationPlayer>,
    /// The animation graph that the entity is linked to.
    pub graph: Option<u64>,
}

/// An entity with the given parent and no component.
pub open spec fn bare(parent: Option<Entity>) -> EntityData {
    EntityData { parent, marker: None, player: None, graph: None }
}

/// Every parent was spawned before its child, so the ownership graph is a forest.
pub open spec fn well_formed(s: Seq<EntityData>) -> bool {
    forall|e: int|
        0 <= e < s.len() ==> match (#[trigger] s[e]).parent {
            Some(p) => p < e,
            None => true,
        }
}

/// `e` lies below `ancestor`, at any depth.
pub open spec fn is_descendant(s: Seq<EntityData>, e: int, ancestor: int) -> bool
    decreases e,
{
    0 <= e < s.len() && match s[e].parent {
        Some(p) => p < e && (p == ancestor || is_descendant(s, p as int, ancestor)),
        None => false,
    }
}

/// The pending animation of `target`, if `target` is an entity that carries one.
pub open spec fn pending(s: Seq<EntityData>, target: int) -> Option<AnimationToPlay> {
    if 0 <= target < s.len() {
        s[target].marker
    } else {
        None
    }
}

/// `e` is one of the entities on which a scene-ready notification for `target` acts: `target`
/// carries a pending animation, `e` lies below it and can play animations.
pub open spec fn is_started(s: Seq<EntityData>, target: int, e: int) -> bool {
    pending(s, target) is Some && is_descendant(s, e, target) && s[e].player is Some
}

/// The player of an entity that was told to play the marker's clip and repeat it forever.
pub open spec fn playing_forever(m: AnimationToPlay) -> AnimationPlayer {
    AnimationPlayer {
        playing: Some(Playback { index: m.index, repeat: RepeatAnimation::Forever }),
    }
}

/// An entity after its player was started on the marker's clip and linked to the marker's
/// graph.
pub open spec fn started(d: EntityData, m: AnimationToPlay) -> EntityData {
    EntityData { player: Some(playing_forever(m)), graph: Some(m.graph_handle), ..d }
}

/// The world after the scene below `target` has been reported ready.
pub open spec fn after_scene_ready(s: Seq<EntityData>, target: int) -> Seq<EntityData> {
    Seq::new(
        s.len(),
        |e: int|
            if is_started(s, target, e) {
                started(s[e], pending(s, target).unwrap())
            } else {
                s[e]
            },
    )
}

/// Strictly increasing: the entities stand in spawn order and none stands twice.
pub open spec fn ascending(s: Seq<Entity>) -> bool {
    forall|i: int, j: int| 0 <= i < j < s.len() ==> s[i] < s[j]
}

/// An entity that was spawned after all of an ascending list may be put at its end.
pub proof fn lemma_push_ascending(s: Seq<Entity>, x: Entity)
    requires
        ascending(s),
        forall|y: Entity| #[trigger] s.contains(y) ==> y < x,
    ensures
        ascending(s.push(x)),
        forall|y: Entity| #[trigger] s.push(x).contains(y) <==> (s.contains(y) || y == x),
{
    let t = s.push(x);
    assert forall|i: int, j: int| 0 <= i < j < t.len() implies t[i] < t[j] by {
        if j == s.len() {
            assert(s.contains(s[i]));
        }
    }
    assert forall|y: Entity| t.contains(y) <==> (s.contains(y) || y == x) by {
        if t.contains(y) {
            let i = choose|i: int| 0 <= i < t.len() && t[i] == y;
            if i < s.len() {
                assert(s[i] == y);
            }
        }
        if s.contains(y) {
            let i = choose|i: int| 0 <= i < s.len() && s[i] == y;
            assert(t[i] == y);
        }
        if y == x {
            assert(t[s.len() as int] == y);
        }
    }
}

/// In an ascending list, what stands before a position is smaller than what stands at it,
/// and nothing else is.
pub proof fn lemma_ascending_position(s: Seq<Entity>, i: int, y: Entity)
    requires
        ascending(s),
        0 <= i < s.len(),
        s.contains(y),
    ensures
        y < s[i] <==> exists|k: int| 0 <= k < i && s[k] == y,
{
    let k = choose|k: int| 0 <= k < s.len() && s[k] == y;
    if k < i {
        assert(s[k] < s[i]);
    } else if k > i {
        assert(s[i] < s[k]);
    }
    if exists|m: int| 0 <= m < i && s[m] == y {
        let m = choose|m: int| 0 <= m < i && s[m] == y;
        assert(s[m] < s[i]);
    }
}

} // verus!
