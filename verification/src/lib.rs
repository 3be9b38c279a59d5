//! A small model of an entity hierarchy in which a pending animation is started once the
//! scene below an entity has been instantiated.
//!
//! `model` states, over plain sequences, what the hierarchy is and what a scene-ready
//! notification does to it. `world` holds the executable store of entities. `observer`
//! holds the handler that reacts to the notification. `laws` states what follows for
//! every world.
pub mod model;
pub mod world;
pub mod observer;
pub mod laws;

pub use model::{AnimationPlayer, AnimationToPlay, Entity, EntityData, Playback, RepeatAnimation};
pub use observer::play_animation_when_ready;
pub use world::World;
