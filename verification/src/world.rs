//! The executable store of entities.
use vstd::prelude::*;
use crate::model::{AnimationPlayer, AnimationToPlay, Entity, EntityData, Playback, RepeatAnimation};
use crate::model::{ascending, bare, is_descendant, lemma_push_ascending, started, well_formed};

verus! {

/// The entities of a scene, in the order in which they were spawned.
pub struct World {
    entities: Vec<EntityData>,
}

impl View for World {
    type V = Seq<EntityData>;

    closed spec fn view(&self) -> Seq<EntityData> {
        self.entities@
    }
}

impl World {
    /// Every parent was spawned before its child.
    #[verifier::type_invariant]
    pub(crate) open spec fn parents_first(&self) -> bool {
        well_formed(self@)
    }

    /// A world without entities.
    pub fn new() -> (w: World)
        ensures
            w@ == Seq::<EntityData>::empty(),
            well_formed(w@),
    {
        World { entities: Vec::new() }
    }

    /// The number of entities.
    pub fn len(&self) -> (n: usize)
        ensures
            n == self@.len(),
    {
        self.entities.len()
    }

    /// Whether `e` names an entity of this world.
    pub fn contains(&self, e: Entity) -> (r: bool)
        ensures
            r == (e < self@.len()),
    {
        e < self.entities.len()
    }

    /// Spawns an entity without a parent.
    pub fn spawn(&mut self) -> (e: Entity)
        ensures
            e == old(self)@.len(),
            final(self)@ == old(self)@.push(bare(None)),
            well_formed(final(self)@),
    {
        proof {
            use_type_invariant(&*self);
        }
        let mut entities: Vec<EntityData> = Vec::new();
        std::mem::swap(&mut entities, &mut self.entities);
        let e: usize = entities.len();
        entities.push(EntityData { parent: None, marker: None, player: None, graph: None });
        self.entities = entities;
        e
    }

    /// Spawns an entity below `parent`. Nothing is spawned where `parent` is no entity of
    /// this world.
    pub fn spawn_child(&mut self, parent: Entity) -> (r: Option<Entity>)
        ensures
            well_formed(final(self)@),
            parent < old(self)@.len() ==> r == Some(old(self)@.len() as usize) && final(self)@
                == old(self)@.push(bare(Some(parent))),
            parent >= old(self)@.len() ==> r.is_none() && final(self)@ == old(self)@,
    {
        proof {
            use_type_invariant(&*self);
        }
        let e: usize = self.entities.len();
        if parent < e {
            let mut entities: Vec<EntityData> = Vec::new();
            std::mem::swap(&mut entities, &mut self.entities);
            entities.push(
                EntityData { parent: Some(parent), marker: None, player: None, graph: None },
            );
            self.entities = entities;
            Some(e)
        } else {
            None
        }
    }

    /// The record of `e`, or `None` where `e` is no entity of this world.
    pub fn get(&self, e: Entity) -> (r: Option<EntityData>)
        ensures
            r == (if e < self@.len() {
                Some(self@[e as int])
            } else {
                None
            }),
    {
        if e < self.entities.len() {
            Some(self.entities[e])
        } else {
            None
        }
    }

    /// The parent of `e`, if it has one.
    pub fn parent(&self, e: Entity) -> (r: Option<Entity>)
        ensures
            r == (if e < self@.len() {
                self@[e as int].parent
            } else {
                None
            }),
    {
        if e < self.entities.len() {
            self.entities[e].parent
        } else {
            None
        }
    }

    /// The pending animation of `e`, if it carries one.
    pub fn marker(&self, e: Entity) -> (r: Option<AnimationToPlay>)
        ensures
            r == crate::model::pending(self@, e as int),
    {
        if e < self.entities.len() {
            self.entities[e].marker
        } else {
            None
        }
    }

    /// The animation player of `e`, if it has one.
    pub fn player(&self, e: Entity) -> (r: Option<AnimationPlayer>)
        ensures
            r == (if e < self@.len() {
                self@[e as int].player
            } else {
                None
            }),
    {
        if e < self.entities.len() {
            self.entities[e].player
        } else {
            None
        }
    }

    /// The animation graph that `e` is linked to, if any.
    pub fn graph(&self, e: Entity) -> (r: Option<u64>)
        ensures
            r == (if e < self@.len() {
                self@[e as int].graph
            } else {
                None
            }),
    {
        if e < self.entities.len() {
            self.entities[e].graph
        } else {
            None
        }
    }

    /// Attaches a pending animation to `e`, in place of one that it had. Returns whether `e`
    /// is an entity of this world; where it is not, nothing changes.
    pub fn insert_marker(&mut self, e: Entity, marker: AnimationToPlay) -> (r: bool)
        ensures
            well_formed(final(self)@),
            r == (e < old(self)@.len()),
            r ==> final(self)@ == old(self)@.update(
                e as int,
                (EntityData { marker: Some(marker), ..old(self)@[e as int] }),
            ),
            !r ==> final(self)@ == old(self)@,
    {
        proof {
            use_type_invariant(&*self);
        }
        if e < self.entities.len() {
            let mut d: EntityData = self.entities[e];
            d.marker = Some(marker);
            let mut entities: Vec<EntityData> = Vec::new();
            std::mem::swap(&mut entities, &mut self.entities);
            entities.set(e, d);
            self.entities = entities;
            true
        } else {
            false
        }
    }

    /// Gives `e` an animation player that plays nothing, in place of one that it had. Returns
    /// whether `e` is an entity of this world; where it is not, nothing changes.
    pub fn insert_player(&mut self, e: Entity) -> (r: bool)
        ensures
            well_formed(final(self)@),
            r == (e < old(self)@.len()),
            r ==> final(self)@ == old(self)@.update(
                e as int,
                (EntityData {
                    player: Some(AnimationPlayer { playing: None }),
                    ..old(self)@[e as int]
                }),
            ),
            !r ==> final(self)@ == old(self)@,
    {
        proof {
            use_type_invariant(&*self);
        }
        if e < self.entities.len() {
            let mut d: EntityData = self.entities[e];
            d.player = Some(AnimationPlayer { playing: None });
            let mut entities: Vec<EntityData> = Vec::new();
            std::mem::swap(&mut entities, &mut self.entities);
            entities.set(e, d);
            self.entities = entities;
            true
        } else {
            false
        }
    }

    /// Tells `e` to play the marker's clip, repeating forever, and links it to the marker's
    /// graph. Returns whether `e` is an entity of this world; where it is not, nothing
    /// changes.
    pub fn start(&mut self, e: Entity, marker: AnimationToPlay) -> (r: bool)
        ensures
            well_formed(final(self)@),
            r == (e < old(self)@.len()),
            r ==> final(self)@ == old(self)@.update(e as int, started(old(self)@[e as int], marker)),
            !r ==> final(self)@ == old(self)@,
    {
        proof {
            use_type_invariant(&*self);
        }
        if e < self.entities.len() {
            let mut d: EntityData = self.entities[e];
            d.player = Some(
                AnimationPlayer {
                    playing: Some(
                        Playback { index: marker.index, repeat: RepeatAnimation::Forever },
                    ),
                },
            );
            d.graph = Some(marker.graph_handle);
            let mut entities: Vec<EntityData> = Vec::new();
            std::mem::swap(&mut entities, &mut self.entities);
            entities.set(e, d);
            self.entities = entities;
            true
        } else {
            false
        }
    }

    /// Whether `e` lies below `ancestor`, at any depth.
    pub fn is_descendant_of(&self, e: Entity, ancestor: Entity) -> (r: bool)
        ensures
            r == is_descendant(self@, e as int, ancestor as int),
    {
        proof {
            use_type_invariant(&*self);
        }
        if e >= self.entities.len() {
            return false;
        }
        let mut cur: usize = e;
        loop
            invariant
                well_formed(self@),
                cur < self@.len(),
                is_descendant(self@, e as int, ancestor as int) == is_descendant(
                    self@,
                    cur as int,
                    ancestor as int,
                ),
            decreases cur,
        {
            match self.entities[cur].parent {
                None => {
                    return false;
                },
                Some(p) => {
                    if p == ancestor {
                        return true;
                    }
                    assert(p < cur);
                    cur = p;
                },
            }
        }
    }

    /// The entities that lie below `target`, at any depth, in spawn order.
    pub fn descendants(&self, target: Entity) -> (below: Vec<Entity>)
        ensures
            forall|e: Entity|
                #![trigger below@.contains(e)]
                #![trigger is_descendant(self@, e as int, target as int)]
                below@.contains(e) <==> is_descendant(self@, e as int, target as int),
            ascending(below@),
    {
        proof {
            use_type_invariant(&*self);
        }
        let n: usize = self.entities.len();
        let mut below: Vec<Entity> = Vec::new();
        let mut is_below: Vec<bool> = Vec::new();
        let mut e: usize = 0;
        while e < n
            invariant
                e <= n,
                n == self@.len(),
                well_formed(self@),
                is_below@.len() == e,
                forall|k: int|
                    0 <= k < e ==> is_below@[k] == is_descendant(self@, k, target as int),
                forall|x: Entity|
                    #![trigger below@.contains(x)]
                    #![trigger is_descendant(self@, x as int, target as int)]
                    below@.contains(x) <==> x < e && is_descendant(
                        self@,
                        x as int,
                        target as int,
                    ),
                ascending(below@),
            decreases n - e,
        {
            let d: bool = match self.entities[e].parent {
                Some(p) => p == target || is_below[p],
                None => false,
            };
            assert(d == is_descendant(self@, e as int, target as int));
            is_below.push(d);
            if d {
                proof {
                    lemma_push_ascending(below@, e);
                }
                below.push(e);
            }
            e += 1;
        }
        below
    }
}

} // verus!
