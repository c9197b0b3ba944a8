//! Actors = player and monsters.
use super::map_items::{i16_at, sub_slice, u16_at, Vertex};
use super::utils::{buf_to_i16, buf_to_u16};
use vstd::prelude::*;

verus! {

#[derive(Clone, Copy, PartialEq, Eq, Structural)]
pub enum ThingType {
    Player(u8),
    Monster(u8),
    Weapon(u8),
    Ammo(u8, u8),
    ArtifactItem,
    Collectible,
    Key,
    Obstacle,
    Decoration,
    Other(u16),
    Unknown,
}

pub struct Thing {
    x_pos: i16,
    y_pos: i16,
    pub angle: i16,
    pub type_code: u16,
    pub flags: u16,
    _typ: ThingType,
    _radius: u8,
    _height: u8,
    _sprite: [u8; 4],
}

impl Thing {
    /// Where the thing stands on the map.
    pub closed spec fn spec_pos(&self) -> (int, int) {
        (self.x_pos as int, self.y_pos as int)
    }

    /// The angle, type code and flags of the thing.
    pub closed spec fn spec_attrs(&self) -> (int, int, int) {
        (self.angle as int, self.type_code as int, self.flags as int)
    }

    /// Its type (not yet derived from the type code), radius and height.
    pub closed spec fn spec_kind(&self) -> (ThingType, u8, u8) {
        (self._typ, self._radius, self._height)
    }

    /// A thing from its first 10 bytes in the THINGS lump.
    pub fn new(lump_data: &[u8]) -> (t: Self)
        requires
            lump_data@.len() >= 10,
        ensures
            t.spec_pos() == (i16_at(lump_data@, 0), i16_at(lump_data@, 2)),
            t.spec_attrs() == (i16_at(lump_data@, 4), u16_at(lump_data@, 6), u16_at(lump_data@, 8)),
            t.spec_kind() == (ThingType::Unknown, 0u8, 0u8),
    {
        Self {
            x_pos: buf_to_i16(sub_slice(lump_data, 0, 2)),
            y_pos: buf_to_i16(sub_slice(lump_data, 2, 4)),
            angle: buf_to_i16(sub_slice(lump_data, 4, 6)),
            type_code: buf_to_u16(sub_slice(lump_data, 6, 8)),
            flags: buf_to_u16(sub_slice(lump_data, 8, 10)),
            _typ: ThingType::Unknown,
            _radius: 0,
            _height: 0,
            _sprite: [0; 4],
        }
    }

    /// The type code of the thing (1 for the player's start).
    pub fn type_code(&self) -> (c: u16)
        ensures
            c == self.spec_attrs().1,
    {
        self.type_code
    }

    pub fn pos(&self) -> (v: Vertex)
        ensures
            v.x == self.spec_pos().0,
            v.y == self.spec_pos().1,
    {
        Vertex { x: self.x_pos as i32, y: self.y_pos as i32 }
    }
}

} // verus!
