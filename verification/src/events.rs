use vstd::prelude::*;

verus! {

/// Opaque identifier of an entity, as carried inside events.
pub type EntityId = u32;

/// Payload of the event fired when a level begins.
#[derive(Clone, Copy, Debug, PartialEq, Eq, Structural)]
pub struct LevelStart {
    pub level: u8,
}

/// Payload of the event fired when an entity is moved.
#[derive(Clone, Copy, Debug, PartialEq, Eq, Structural)]
pub struct EntityMoved {
    pub id: EntityId,
}

/// Payload of the event fired when a box lands on a target spot.
#[derive(Clone, Copy, Debug, PartialEq, Eq, Structural)]
pub struct BoxPlacedOnSpot {
    pub is_correct_spot: bool,
}

/// A domain event, appended by the producers of one tick and read by
/// audio and UI collaborators in first-in first-out order.
#[derive(Clone, Copy, Debug, PartialEq, Eq, Structural)]
pub enum Event {
    /// Fired when the game is started.
    LevelStart(LevelStart),
    /// Fired when the player hits an obstacle like a wall.
    PlayerHitObstacle,
    /// Fired when all boxes are placed on spots of their colour.
    PlayerWon,
    /// Fired when an entity is moved.
    EntityMoved(EntityMoved),
    /// Fired when a box is placed on a spot.
    BoxPlacedOnSpot(BoxPlacedOnSpot),
}

} // verus!
