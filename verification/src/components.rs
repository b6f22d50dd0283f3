use vstd::prelude::*;

verus! {

/// Rendering depth of a floor tile.
pub const FLOOR_Z: u8 = 5;

/// Rendering depth of a target spot, drawn above the floor and below a box.
pub const BOX_SPOT_Z: u8 = 9;

/// Rendering depth of a wall.
pub const WALL_Z: u8 = 10;

/// Rendering depth of a box.
pub const BOX_Z: u8 = 10;

/// Rendering depth of the player.
pub const PLAYER_Z: u8 = 10;

/// One grid cell coordinate together with a stacking layer: `x` is the
/// column, `y` is the row, and `z` orders entities back-to-front when drawn.
#[derive(Clone, Copy, Debug, PartialEq, Eq, Structural)]
pub struct Position {
    pub x: u8,
    pub y: u8,
    pub z: u8,
}

/// The closed set of colours a box or a target spot can carry.
#[derive(Clone, Copy, Debug, PartialEq, Eq, Structural)]
pub enum BoxColour {
    Red,
    Blue,
}

impl Default for BoxColour {
    /// The colour given to boxes and spots written without an explicit colour.
    fn default() -> (c: Self)
        ensures
            c == BoxColour::Red,
    {
        BoxColour::Red
    }
}

/// Whether a renderable shows one fixed image or cycles through frames.
#[derive(Clone, Copy, Debug, PartialEq, Eq, Structural)]
pub enum RenderableKind {
    Static,
    Animated,
}

/// Frame images of a drawable entity: one path means a static image,
/// several mean a looping animation.
#[derive(Clone, Debug, PartialEq)]
pub struct Renderable {
    pub frames: Vec<String>,
}

impl Renderable {
    /// A renderable is well formed when it holds at least one frame.
    pub open spec fn inv(&self) -> bool {
        self.frames@.len() >= 1
    }

    pub open spec fn spec_kind(&self) -> RenderableKind {
        if self.frames@.len() == 1 {
            RenderableKind::Static
        } else {
            RenderableKind::Animated
        }
    }

    /// The frame shown for a resolved frame index: a static renderable
    /// always shows its single image, an animated one wraps the index
    /// around its frame list.
    pub open spec fn spec_path(&self, index: int) -> Seq<char>
        recommends
            self.inv(),
            0 <= index,
    {
        match self.spec_kind() {
            RenderableKind::Static => self.frames@[0]@,
            RenderableKind::Animated => self.frames@[index % (self.frames@.len() as int)]@,
        }
    }

    pub fn new_static(path: String) -> (r: Self)
        ensures
            r.frames@.len() == 1,
            r.frames@[0]@ == path@,
            r.inv(),
            r.spec_kind() == RenderableKind::Static,
    {
        Renderable { frames: vec![path] }
    }

    pub fn new_animated(frames: Vec<String>) -> (r: Self)
        requires
            frames@.len() >= 2,
        ensures
            r.frames@ == frames@,
            r.inv(),
            r.spec_kind() == RenderableKind::Animated,
    {
        Renderable { frames }
    }

    pub fn kind(&self) -> (k: RenderableKind)
        requires
            self.inv(),
        ensures
            k == self.spec_kind(),
    {
        if self.frames.len() == 1 {
            RenderableKind::Static
        } else {
            RenderableKind::Animated
        }
    }

    /// Resolve a frame index to the image path to draw.
    pub fn path(&self, index: usize) -> (p: String)
        requires
            self.inv(),
        ensures
            p@ == self.spec_path(index as int),
    {
        match self.kind() {
            RenderableKind::Static => self.frames[0].clone(),
            RenderableKind::Animated => self.frames[index % self.frames.len()].clone(),
        }
    }
}

} // verus!
