//! Values carried between sessions: media kinds, canvas positions and overlay items.

use vstd::prelude::*;

verus! {

/// The kind of media an overlay item shows.
#[derive(Debug, Clone, Copy, PartialEq, Eq, Structural)]
pub enum MediaType {
    Text,
    Image,
    Video,
}

/// A point in overlay-canvas coordinates.
#[derive(Debug, Clone, Copy, PartialEq, Eq, Hash, Structural)]
pub struct Position {
    pub x: i32,
    pub y: i32,
}

impl Position {
    pub fn new(x: i32, y: i32) -> (r: Self)
        ensures
            r.x == x,
            r.y == y,
    {
        Self { x, y }
    }
}

/// Coordinates add componentwise.
impl core::ops::Add for Position {
    type Output = Position;

    fn add(self, rhs: Position) -> (r: Position) {
        Position { x: self.x + rhs.x, y: self.y + rhs.y }
    }
}

impl vstd::std_specs::ops::AddSpecImpl for Position {
    open spec fn obeys_add_spec() -> bool {
        true
    }

    open spec fn add_req(self, rhs: Position) -> bool {
        i32::MIN <= self.x + rhs.x <= i32::MAX && i32::MIN <= self.y + rhs.y <= i32::MAX
    }

    open spec fn add_spec(self, rhs: Position) -> Position {
        Position { x: (self.x + rhs.x) as i32, y: (self.y + rhs.y) as i32 }
    }
}

/// Coordinates subtract componentwise.
impl core::ops::Sub for Position {
    type Output = Position;

    fn sub(self, rhs: Position) -> (r: Position) {
        Position { x: self.x - rhs.x, y: self.y - rhs.y }
    }
}

impl vstd::std_specs::ops::SubSpecImpl for Position {
    open spec fn obeys_sub_spec() -> bool {
        true
    }

    open spec fn sub_req(self, rhs: Position) -> bool {
        i32::MIN <= self.x - rhs.x <= i32::MAX && i32::MIN <= self.y - rhs.y <= i32::MAX
    }

    open spec fn sub_spec(self, rhs: Position) -> Position {
        Position { x: (self.x - rhs.x) as i32, y: (self.y - rhs.y) as i32 }
    }
}

/// The mathematical value of an overlay item.
pub ghost struct PlayerView {
    pub name: Seq<char>,
    pub data: Seq<char>,
    pub media_type: MediaType,
    pub position: Position,
    pub width: i32,
    pub height: Option<i32>,
    pub horizontal_flip: bool,
}

/// An overlay item as the shared state holds it.
#[derive(Debug, Clone, PartialEq)]
pub struct ServerPlayer {
    pub name: String,
    pub data: String,
    pub media_type: MediaType,
    pub position: Position,
    pub width: i32,
    /// `None` keeps the media's aspect ratio and derives the height from the width.
    pub height: Option<i32>,
    pub horizontal_flip: bool,
}

impl View for ServerPlayer {
    type V = PlayerView;

    open spec fn view(&self) -> PlayerView {
        PlayerView {
            name: self.name@,
            data: self.data@,
            media_type: self.media_type,
            position: self.position,
            width: self.width,
            height: self.height,
            horizontal_flip: self.horizontal_flip,
        }
    }
}

impl ServerPlayer {
    /// A new item, not flipped.
    pub fn new(
        name: String,
        data: String,
        media_type: MediaType,
        position: Position,
        width: i32,
        height: Option<i32>,
    ) -> (r: Self)
        ensures
            r.name == name,
            r.data == data,
            r.media_type == media_type,
            r.position == position,
            r.width == width,
            r.height == height,
            !r.horizontal_flip,
    {
        ServerPlayer { name, data, media_type, position, width, height, horizontal_flip: false }
    }

    /// A field-for-field copy.
    pub fn duplicate(&self) -> (r: Self)
        ensures
            r == *self,
    {
        ServerPlayer {
            name: self.name.clone(),
            data: self.data.clone(),
            media_type: self.media_type,
            position: self.position,
            width: self.width,
            height: self.height,
            horizontal_flip: self.horizontal_flip,
        }
    }
}

} // verus!
