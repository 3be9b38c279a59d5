//! The handler of the scene-ready notification.
use vstd::prelude::*;
use crate::model::{Entity, EntityData};
use crate::model::{after_scene_ready, ascending, is_descendant, is_started, pending, well_formed};
use crate::model::{lemma_ascending_position, lemma_push_ascending};
use crate::world::World;

verus! {

/// Reacts to the notification that the scene below `target` has been instantiated.
///
/// Where `target` carries a pending animation, every entity below it that has an animation
/// player is told to play the marker's clip forever and is linked to the marker's graph.
/// Otherwise nothing changes: a target without a pending animation, a target that is no
/// entity of the world and a subtree without players are no errors. The entities that were
/// started are returned in spawn order.
pub fn play_animation_when_ready(world: &mut World, target: Entity) -> (played: Vec<Entity>)
    ensures
        final(world)@ == after_scene_ready(old(world)@, target as int),
        well_formed(final(world)@),
        forall|e: Entity|
            #![trigger played@.contains(e)]
            #![trigger is_started(old(world)@, target as int, e as int)]
            played@.contains(e) <==> is_started(old(world)@, target as int, e as int),
        ascending(played@),
{
    proof {
        use_type_invariant(&*world);
    }
    let ghost before: Seq<EntityData> = world@;
    let ghost after: Seq<EntityData> = after_scene_ready(before, target as int);
    let mut played: Vec<Entity> = Vec::new();
    let marker = match world.marker(target) {
        Some(m) => m,
        None => {
            assert(world@ =~= after);
            return played;
        },
    };
    let n: usize = world.len();
    let below: Vec<Entity> = world.descendants(target);
    let mut i: usize = 0;
    while i < below.len()
        invariant
            i <= below@.len(),
            n == before.len(),
            world@.len() == n,
            well_formed(world@),
            after == after_scene_ready(before, target as int),
            pending(before, target as int) == Some(marker),
            forall|e: Entity|
                #![trigger below@.contains(e)]
                #![trigger is_descendant(before, e as int, target as int)]
                below@.contains(e) <==> is_descendant(before, e as int, target as int),
            ascending(below@),
            forall|e: int|
                0 <= e < n ==> #[trigger] world@[e] == (if exists|k: int|
                    0 <= k < i && below@[k] == e {
                    after[e]
                } else {
                    before[e]
                }),
            forall|x: Entity|
                #![trigger played@.contains(x)]
                #![trigger is_started(before, target as int, x as int)]
                played@.contains(x) <==> is_started(before, target as int, x as int) && exists|
                    k: int,
                | 0 <= k < i && below@[k] == x,
            ascending(played@),
        decreases below@.len() - i,
    {
        let child: Entity = below[i];
        assert(below@.contains(child));
        if world.player(child).is_some() {
            proof {
                assert forall|y: Entity| played@.contains(y) implies y < child by {
                    lemma_ascending_position(below@, i as int, y);
                }
                lemma_push_ascending(played@, child);
            }
            world.start(child, marker);
            played.push(child);
        }
        assert forall|e: int| 0 <= e < n implies #[trigger] world@[e] == (if exists|k: int|
            0 <= k < i + 1 && below@[k] == e {
            after[e]
        } else {
            before[e]
        }) by {
            if e == child {
                assert(below@[i as int] == e);
            } else if exists|k: int| 0 <= k < i + 1 && below@[k] == e {
                let k = choose|k: int| 0 <= k < i + 1 && below@[k] == e;
                assert(0 <= k < i && below@[k] == e);
            }
        }
        assert forall|x: Entity|
            played@.contains(x) <==> is_started(before, target as int, x as int) && exists|
                k: int,
            | 0 <= k < i + 1 && below@[k] == x by {
            if x == child {
                assert(below@[i as int] == x);
            } else if exists|k: int| 0 <= k < i + 1 && below@[k] == x {
                let k = choose|k: int| 0 <= k < i + 1 && below@[k] == x;
                assert(0 <= k < i && below@[k] == x);
            }
        }
        i += 1;
    }
    assert forall|e: int| 0 <= e < n implies world@[e] == after[e] by {
        if is_descendant(before, e, target as int) {
            assert(below@.contains(e as usize));
        }
    }
    assert(world@ =~= after);
    played
}

} // verus!
