use vstd::prelude::*;
use crate::components::{
    BoxColour, Position, Renderable, BOX_SPOT_Z, BOX_Z, FLOOR_Z, PLAYER_Z, WALL_Z,
};

verus! {

/// The frame images of a floor tile.
pub open spec fn floor_frames() -> Seq<Seq<char>> {
    seq!["/images/floor.png"@]
}

/// The frame images of a wall.
pub open spec fn wall_frames() -> Seq<Seq<char>> {
    seq!["/images/wall.png"@]
}

/// The animation frames of the player.
pub open spec fn player_frames() -> Seq<Seq<char>> {
    seq!["/images/player_1.png"@, "/images/player_2.png"@, "/images/player_3.png"@]
}

/// The animation frames of a box of the given colour.
pub open spec fn box_frames(colour: BoxColour) -> Seq<Seq<char>> {
    match colour {
        BoxColour::Red => seq!["/images/box_red_1.png"@, "/images/box_red_2.png"@],
        BoxColour::Blue => seq!["/images/box_blue_1.png"@, "/images/box_blue_2.png"@],
    }
}

/// The frame image of a target spot of the given colour.
pub open spec fn box_spot_frames(colour: BoxColour) -> Seq<Seq<char>> {
    match colour {
        BoxColour::Red => seq!["/images/box_spot_red.png"@],
        BoxColour::Blue => seq!["/images/box_spot_blue.png"@],
    }
}

/// Mathematical model of an entity store: one sequence per component
/// kind, all indexed by the same dense entity id.
#[verifier::ext_equal]
pub ghost struct StoreModel {
    pub positions: Seq<Option<Position>>,
    pub renderables: Seq<Option<Seq<Seq<char>>>>,
    pub boxes: Seq<Option<BoxColour>>,
    pub box_spots: Seq<Option<BoxColour>>,
    pub players: Seq<bool>,
    pub walls: Seq<bool>,
    pub floors: Seq<bool>,
}

impl StoreModel {
    /// Number of entities; ids are `0 ..= len - 1`.
    pub open spec fn len(self) -> nat {
        self.positions.len()
    }

    /// Every component table covers exactly the ids `0 ..= len - 1`, and
    /// every renderable holds at least one frame.
    pub open spec fn wf(self) -> bool {
        &&& self.renderables.len() == self.len()
        &&& self.boxes.len() == self.len()
        &&& self.box_spots.len() == self.len()
        &&& self.players.len() == self.len()
        &&& self.walls.len() == self.len()
        &&& self.floors.len() == self.len()
        &&& forall|i: int|
            0 <= i < self.len() && self.renderables[i] is Some ==> self.renderables[i]->0.len()
                >= 1
    }

    /// The model after creating one entity holding the given components.
    pub open spec fn push_entity(
        self,
        pos: Option<Position>,
        frames: Option<Seq<Seq<char>>>,
        box_colour: Option<BoxColour>,
        spot_colour: Option<BoxColour>,
        player: bool,
        wall: bool,
        floor: bool,
    ) -> StoreModel {
        StoreModel {
            positions: self.positions.push(pos),
            renderables: self.renderables.push(frames),
            boxes: self.boxes.push(box_colour),
            box_spots: self.box_spots.push(spot_colour),
            players: self.players.push(player),
            walls: self.walls.push(wall),
            floors: self.floors.push(floor),
        }
    }

    /// The empty model: no entities at all.
    pub open spec fn empty() -> StoreModel {
        StoreModel {
            positions: Seq::empty(),
            renderables: Seq::empty(),
            boxes: Seq::empty(),
            box_spots: Seq::empty(),
            players: Seq::empty(),
            walls: Seq::empty(),
            floors: Seq::empty(),
        }
    }
}

/// The substrate of the simulation: all entities of the loaded level and
/// their component values, stored as one typed arena per component kind,
/// each indexed by a dense integer entity id.
///
/// An entity is a pure identifier: the store owns every component value.
#[derive(Clone, Debug, PartialEq)]
pub struct EntityStore {
    pub positions: Vec<Option<Position>>,
    pub renderables: Vec<Option<Renderable>>,
    pub boxes: Vec<Option<BoxColour>>,
    pub box_spots: Vec<Option<BoxColour>>,
    pub players: Vec<bool>,
    pub walls: Vec<bool>,
    pub floors: Vec<bool>,
}

/// The frames held by an optional renderable component.
pub open spec fn frames_of(r: Option<Renderable>) -> Option<Seq<Seq<char>>> {
    match r {
        Some(rend) => Some(rend.frames.deep_view()),
        None => None,
    }
}

impl EntityStore {
    /// The store as its mathematical model.
    pub open spec fn model(self) -> StoreModel {
        StoreModel {
            positions: self.positions@,
            renderables: Seq::new(self.renderables@.len(), |i: int| frames_of(self.renderables@[i])),
            boxes: self.boxes@,
            box_spots: self.box_spots@,
            players: self.players@,
            walls: self.walls@,
            floors: self.floors@,
        }
    }

    pub open spec fn wf(self) -> bool {
        self.model().wf()
    }

    /// A store with no entities.
    pub fn new() -> (s: Self)
        ensures
            s.model() =~= StoreModel::empty(),
            s.wf(),
    {
        EntityStore {
            positions: Vec::new(),
            renderables: Vec::new(),
            boxes: Vec::new(),
            box_spots: Vec::new(),
            players: Vec::new(),
            walls: Vec::new(),
            floors: Vec::new(),
        }
    }

    /// Create one entity from its component values and hand out its id.
    fn push_entity(
        &mut self,
        pos: Option<Position>,
        renderable: Option<Renderable>,
        box_colour: Option<BoxColour>,
        spot_colour: Option<BoxColour>,
        player: bool,
        wall: bool,
        floor: bool,
    ) -> (id: usize)
        ensures
            final(self).model() =~= old(self).model().push_entity(
                pos,
                frames_of(renderable),
                box_colour,
                spot_colour,
                player,
                wall,
                floor,
            ),
            id == old(self).model().len(),
    {
        let id = self.positions.len();
        self.positions.push(pos);
        self.renderables.push(renderable);
        self.boxes.push(box_colour);
        self.box_spots.push(spot_colour);
        self.players.push(player);
        self.walls.push(wall);
        self.floors.push(floor);
        proof {
            assert(final(self).model().renderables =~= old(self).model().renderables.push(
                frames_of(renderable),
            ));
        }
        id
    }

    /// Create a floor tile at the given cell.
    pub fn create_floor(&mut self, x: u8, y: u8) -> (id: usize)
        ensures
            final(self).model() =~= old(self).model().push_entity(
                Some(Position { x, y, z: FLOOR_Z }),
                Some(floor_frames()),
                None,
                None,
                false,
                false,
                true,
            ),
            id == old(self).model().len(),
            old(self).wf() ==> final(self).wf(),
    {
        let r = Renderable::new_static("/images/floor.png".to_owned());
        proof {
            assert(r.frames.deep_view() =~= floor_frames());
        }
        self.push_entity(Some(Position { x, y, z: FLOOR_Z }), Some(r), None, None, false, false, true)
    }

    /// Create a wall at the given cell.
    pub fn create_wall(&mut self, x: u8, y: u8) -> (id: usize)
        ensures
            final(self).model() =~= old(self).model().push_entity(
                Some(Position { x, y, z: WALL_Z }),
                Some(wall_frames()),
                None,
                None,
                false,
                true,
                false,
            ),
            id == old(self).model().len(),
            old(self).wf() ==> final(self).wf(),
    {
        let r = Renderable::new_static("/images/wall.png".to_owned());
        proof {
            assert(r.frames.deep_view() =~= wall_frames());
        }
        self.push_entity(Some(Position { x, y, z: WALL_Z }), Some(r), None, None, false, true, false)
    }

    /// Create the player at the given cell.
    pub fn create_player(&mut self, x: u8, y: u8) -> (id: usize)
        ensures
            final(self).model() =~= old(self).model().push_entity(
                Some(Position { x, y, z: PLAYER_Z }),
                Some(player_frames()),
                None,
                None,
                true,
                false,
                false,
            ),
            id == old(self).model().len(),
            old(self).wf() ==> final(self).wf(),
    {
        let mut frames: Vec<String> = Vec::new();
        frames.push("/images/player_1.png".to_owned());
        frames.push("/images/player_2.png".to_owned());
        frames.push("/images/player_3.png".to_owned());
        let r = Renderable::new_animated(frames);
        proof {
            assert(r.frames.deep_view() =~= player_frames());
        }
        self.push_entity(Some(Position { x, y, z: PLAYER_Z }), Some(r), None, None, true, false, false)
    }

    /// Create a box of the given colour at the given cell.
    pub fn create_box(&mut self, x: u8, y: u8, colour: BoxColour) -> (id: usize)
        ensures
            final(self).model() =~= old(self).model().push_entity(
                Some(Position { x, y, z: BOX_Z }),
                Some(box_frames(colour)),
                Some(colour),
                None,
                false,
                false,
                false,
            ),
            id == old(self).model().len(),
            old(self).wf() ==> final(self).wf(),
    {
        let mut frames: Vec<String> = Vec::new();
        match colour {
            BoxColour::Red => {
                frames.push("/images/box_red_1.png".to_owned());
                frames.push("/images/box_red_2.png".to_owned());
            },
            BoxColour::Blue => {
                frames.push("/images/box_blue_1.png".to_owned());
                frames.push("/images/box_blue_2.png".to_owned());
            },
        }
        let r = Renderable::new_animated(frames);
        proof {
            assert(r.frames.deep_view() =~= box_frames(colour));
        }
        self.push_entity(
            Some(Position { x, y, z: BOX_Z }),
            Some(r),
            Some(colour),
            None,
            false,
            false,
            false,
        )
    }

    /// Create a target spot of the given colour at the given cell.
    pub fn create_box_spot(&mut self, x: u8, y: u8, colour: BoxColour) -> (id: usize)
        ensures
            final(self).model() =~= old(self).model().push_entity(
                Some(Position { x, y, z: BOX_SPOT_Z }),
                Some(box_spot_frames(colour)),
                None,
                Some(colour),
                false,
                false,
                false,
            ),
            id == old(self).model().len(),
            old(self).wf() ==> final(self).wf(),
    {
        let path = match colour {
            BoxColour::Red => "/images/box_spot_red.png".to_owned(),
            BoxColour::Blue => "/images/box_spot_blue.png".to_owned(),
        };
        let r = Renderable::new_static(path);
        proof {
            assert(r.frames.deep_view() =~= box_spot_frames(colour));
        }
        self.push_entity(
            Some(Position { x, y, z: BOX_SPOT_Z }),
            Some(r),
            None,
            Some(colour),
            false,
            false,
            false,
        )
    }

    /// Decide well-formedness at run time: every component table covers
    /// the same ids and every renderable holds at least one frame.
    pub fn is_well_formed(&self) -> (b: bool)
        ensures
            b == self.wf(),
    {
        let n = self.positions.len();
        if self.renderables.len() != n || self.boxes.len() != n || self.box_spots.len() != n
            || self.players.len() != n || self.walls.len() != n || self.floors.len() != n {
            return false;
        }
        let mut i: usize = 0;
        while i < n
            invariant
                n == self.model().len(),
                self.renderables@.len() == n,
                i <= n,
                forall|k: int|
                    0 <= k < i && self.model().renderables[k] is Some
                        ==> #[trigger] self.model().renderables[k]->0.len() >= 1,
            decreases n - i,
        {
            match &self.renderables[i] {
                Some(r) => {
                    if r.frames.len() == 0 {
                        proof {
                            assert(self.model().renderables[i as int]->0.len() == 0);
                        }
                        return false;
                    }
                },
                None => {},
            }
            i = i + 1;
        }
        true
    }

    /// Number of entities in the store.
    pub fn entity_count(&self) -> (n: usize)
        ensures
            n == self.model().len(),
    {
        self.positions.len()
    }

    /// The position component of an entity.
    pub fn position(&self, id: usize) -> (p: Option<Position>)
        requires
            id < self.model().len(),
        ensures
            p == self.model().positions[id as int],
    {
        self.positions[id]
    }

    /// The box colour component of an entity.
    pub fn box_colour(&self, id: usize) -> (c: Option<BoxColour>)
        requires
            self.wf(),
            id < self.model().len(),
        ensures
            c == self.model().boxes[id as int],
    {
        self.boxes[id]
    }

    /// The target spot colour component of an entity.
    pub fn spot_colour(&self, id: usize) -> (c: Option<BoxColour>)
        requires
            self.wf(),
            id < self.model().len(),
        ensures
            c == self.model().box_spots[id as int],
    {
        self.box_spots[id]
    }

    /// Whether an entity is the player.
    pub fn is_player(&self, id: usize) -> (b: bool)
        requires
            self.wf(),
            id < self.model().len(),
        ensures
            b == self.model().players[id as int],
    {
        self.players[id]
    }

    /// Whether an entity is a wall.
    pub fn is_wall(&self, id: usize) -> (b: bool)
        requires
            self.wf(),
            id < self.model().len(),
        ensures
            b == self.model().walls[id as int],
    {
        self.walls[id]
    }

    /// Whether an entity is a floor tile.
    pub fn is_floor(&self, id: usize) -> (b: bool)
        requires
            self.wf(),
            id < self.model().len(),
        ensures
            b == self.model().floors[id as int],
    {
        self.floors[id]
    }

    /// Move an entity: replace its position component.
    ///
    /// This is the hook for the movement collaborator, which resolves the
    /// player's pushes; every other component is left untouched.
    pub fn set_position(&mut self, id: usize, p: Position)
        requires
            id < old(self).model().len(),
        ensures
            final(self).model() =~= (StoreModel {
                positions: old(self).model().positions.update(id as int, Some(p)),
                ..old(self).model()
            }),
            old(self).wf() ==> final(self).wf(),
    {
        self.positions[id] = Some(p);
    }
}

} // verus!
