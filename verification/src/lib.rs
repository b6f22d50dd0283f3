//! A grid puzzle game core: a level text is parsed into typed entities,
//! a win condition is evaluated over the entity state every tick, and a
//! z-ordered, image-batched draw list is derived from that state.

pub mod components;
pub mod events;
pub mod levels;
pub mod resources;
pub mod map;
pub mod store;
pub mod systems;
