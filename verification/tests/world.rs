use corn_factory::model::{AnimationPlayer, AnimationToPlay, EntityData, Playback, RepeatAnimation};
use corn_factory::world::World;

#[test]
fn new_world_is_empty() {
    let world = World::new();
    assert_eq!(world.len(), 0);
    assert!(!world.contains(0));
    assert_eq!(world.get(0), None);
}

#[test]
fn entities_are_named_in_spawn_order() {
    let mut world = World::new();
    assert_eq!(world.spawn(), 0);
    assert_eq!(world.spawn_child(0), Some(1));
    assert_eq!(world.spawn(), 2);
    assert_eq!(world.spawn_child(1), Some(3));
    assert_eq!(world.len(), 4);
    assert_eq!(world.parent(0), None);
    assert_eq!(world.parent(1), Some(0));
    assert_eq!(world.parent(2), None);
    assert_eq!(world.parent(3), Some(1));
    assert!(world.contains(3));
    assert!(!world.contains(4));
}

#[test]
fn spawned_entity_has_no_component() {
    let mut world = World::new();
    let root = world.spawn();
    let child = world.spawn_child(root).unwrap();
    assert_eq!(
        world.get(root),
        Some(EntityData { parent: None, marker: None, player: None, graph: None })
    );
    assert_eq!(
        world.get(child),
        Some(EntityData { parent: Some(root), marker: None, player: None, graph: None })
    );
}

#[test]
fn spawn_child_of_missing_parent_is_refused() {
    let mut world = World::new();
    assert_eq!(world.spawn_child(0), None);
    assert_eq!(world.len(), 0);
    world.spawn();
    assert_eq!(world.spawn_child(1), None);
    assert_eq!(world.spawn_child(usize::MAX), None);
    assert_eq!(world.len(), 1);
}

#[test]
fn components_of_a_missing_entity_are_none() {
    let mut world = World::new();
    world.spawn();
    assert_eq!(world.parent(1), None);
    assert_eq!(world.marker(1), None);
    assert_eq!(world.player(1), None);
    assert_eq!(world.graph(1), None);
    assert_eq!(world.get(1), None);
}

#[test]
fn insert_on_a_missing_entity_changes_nothing() {
    let mut world = World::new();
    let root = world.spawn();
    let marker = AnimationToPlay { graph_handle: 5, index: 1 };
    assert!(!world.insert_marker(1, marker));
    assert!(!world.insert_player(1));
    assert!(!world.start(1, marker));
    assert_eq!(world.len(), 1);
    assert_eq!(
        world.get(root),
        Some(EntityData { parent: None, marker: None, player: None, graph: None })
    );
}

#[test]
fn insert_marker_replaces_the_marker_only() {
    let mut world = World::new();
    let root = world.spawn();
    world.insert_player(root);
    assert!(world.insert_marker(root, AnimationToPlay { graph_handle: 5, index: 1 }));
    assert!(world.insert_marker(root, AnimationToPlay { graph_handle: 6, index: 4 }));
    assert_eq!(world.marker(root), Some(AnimationToPlay { graph_handle: 6, index: 4 }));
    assert_eq!(world.player(root), Some(AnimationPlayer { playing: None }));
    assert_eq!(world.graph(root), None);
    assert_eq!(world.parent(root), None);
}

#[test]
fn start_sets_playback_and_graph() {
    let mut world = World::new();
    let root = world.spawn();
    let child = world.spawn_child(root).unwrap();
    assert!(world.start(child, AnimationToPlay { graph_handle: 11, index: 3 }));
    assert_eq!(
        world.get(child),
        Some(EntityData {
            parent: Some(root),
            marker: None,
            player: Some(AnimationPlayer {
                playing: Some(Playback { index: 3, repeat: RepeatAnimation::Forever }),
            }),
            graph: Some(11),
        })
    );
    assert_eq!(
        world.get(root),
        Some(EntityData { parent: None, marker: None, player: None, graph: None })
    );
}

#[test]
fn descendants_are_found_at_any_depth() {
    let mut world = World::new();
    let root = world.spawn();
    let a = world.spawn_child(root).unwrap();
    let b = world.spawn_child(a).unwrap();
    let other = world.spawn();
    let c = world.spawn_child(other).unwrap();
    assert!(world.is_descendant_of(a, root));
    assert!(world.is_descendant_of(b, root));
    assert!(world.is_descendant_of(b, a));
    assert!(world.is_descendant_of(c, other));
    assert!(!world.is_descendant_of(c, root));
    assert!(!world.is_descendant_of(root, root));
    assert!(!world.is_descendant_of(root, a));
    assert!(!world.is_descendant_of(a, b));
    assert!(!world.is_descendant_of(other, root));
    assert!(!world.is_descendant_of(9, root));
    assert!(!world.is_descendant_of(a, 9));
}

#[test]
fn descendants_are_listed_in_spawn_order() {
    let mut world = World::new();
    let root = world.spawn();
    let other = world.spawn();
    let a = world.spawn_child(root).unwrap();
    let x = world.spawn_child(other).unwrap();
    let b = world.spawn_child(a).unwrap();
    let c = world.spawn_child(root).unwrap();
    let y = world.spawn_child(x).unwrap();
    let d = world.spawn_child(b).unwrap();
    assert_eq!(world.descendants(root), vec![a, b, c, d]);
    assert_eq!(world.descendants(other), vec![x, y]);
    assert_eq!(world.descendants(a), vec![b, d]);
    assert_eq!(world.descendants(d), Vec::<usize>::new());
    assert_eq!(world.descendants(100), Vec::<usize>::new());
}

#[test]
fn descendants_of_an_empty_world_are_none() {
    let world = World::new();
    assert!(world.descendants(0).is_empty());
}

#[test]
fn descendants_agree_with_is_descendant_of() {
    let mut world = World::new();
    let root = world.spawn();
    let a = world.spawn_child(root).unwrap();
    world.spawn();
    world.spawn_child(a).unwrap();
    world.spawn_child(2).unwrap();
    for target in 0..world.len() {
        let below = world.descendants(target);
        for e in 0..world.len() {
            assert_eq!(below.contains(&e), world.is_descendant_of(e, target));
            if below.contains(&e) {
                assert!(target < e);
            }
        }
    }
}
