//! Structs for the various items found in a map.
use super::utils::{
    as_signed16,
    buf_to_i16,
    buf_to_u16,
    hash_lump_name,
    le_u16,
    lump_hash,
    name_len,
};
use super::map::{vertex_at, MapData};
use vstd::prelude::*;

verus! {

/// Integer division rounded toward zero, as Rust divides.
pub open spec fn div_toward_zero(a: int, b: int) -> int {
    let q = (if a >= 0 {
        a
    } else {
        -a
    }) / (if b >= 0 {
        b
    } else {
        -b
    });
    if (a >= 0) == (b >= 0) {
        q
    } else {
        -q
    }
}

/// `a / b` on `i32`, rounded toward zero.
fn div_i32(a: i32, b: i32) -> (q: i32)
    requires
        b != 0,
        !(a == i32::MIN && b == -1),
    ensures
        q == div_toward_zero(a as int, b as int),
{
    let ua: u32 = if a >= 0 {
        a as u32
    } else {
        (-(a as i64)) as u32
    };
    let ub: u32 = if b >= 0 {
        b as u32
    } else {
        (-(b as i64)) as u32
    };
    let uq = ua / ub;
    assert(uq <= ua);
    if (a >= 0) == (b >= 0) {
        assert(uq <= i32::MAX) by {
            if ua > i32::MAX {
                assert(a == i32::MIN);
                assert(ub >= 2);
                assert(uq <= ua / 2) by (nonlinear_arith)
                    requires
                        uq == ua / ub,
                        ub >= 2,
                ;
            }
        }
        uq as i32
    } else {
        -(uq as i64) as i32
    }
}

/// A Vertex is a point in the 2D top-view space of a level map.<br/>
/// **Note:** the Y axis goes *upwards* (towards North), like in a normal xOy system,
/// and not like on screen, where the Y axis goes downwards.
#[derive(Debug, Clone, Copy, Default, PartialEq, Eq, Hash, Structural)]
pub struct Vertex {
    pub x: i32,
    pub y: i32,
}

impl std::ops::Add for Vertex {
    type Output = Vertex;

    fn add(self, other: Vertex) -> (v: Vertex) {
        Vertex { x: self.x + other.x, y: self.y + other.y }
    }
}

impl vstd::std_specs::ops::AddSpecImpl for Vertex {
    open spec fn obeys_add_spec() -> bool {
        true
    }

    /// Both coordinates of the sum fit in an `i32`.
    open spec fn add_req(self, rhs: Vertex) -> bool {
        &&& i32::MIN <= self.x + rhs.x <= i32::MAX
        &&& i32::MIN <= self.y + rhs.y <= i32::MAX
    }

    open spec fn add_spec(self, rhs: Vertex) -> Vertex {
        Vertex { x: (self.x + rhs.x) as i32, y: (self.y + rhs.y) as i32 }
    }
}

impl std::ops::Sub for Vertex {
    type Output = Vertex;

    fn sub(self, other: Vertex) -> (v: Vertex) {
        Vertex { x: self.x - other.x, y: self.y - other.y }
    }
}

impl vstd::std_specs::ops::SubSpecImpl for Vertex {
    open spec fn obeys_sub_spec() -> bool {
        true
    }

    /// Both coordinates of the difference fit in an `i32`.
    open spec fn sub_req(self, rhs: Vertex) -> bool {
        &&& i32::MIN <= self.x - rhs.x <= i32::MAX
        &&& i32::MIN <= self.y - rhs.y <= i32::MAX
    }

    open spec fn sub_spec(self, rhs: Vertex) -> Vertex {
        Vertex { x: (self.x - rhs.x) as i32, y: (self.y - rhs.y) as i32 }
    }
}

impl Vertex {
    /// The vertex scaled by `mul / div` (multiplied first, then divided toward zero).
    pub fn scale(&self, mul: i32, div: i32) -> (v: Vertex)
        requires
            div != 0,
            i32::MIN <= self.x * mul <= i32::MAX,
            i32::MIN <= self.y * mul <= i32::MAX,
            !(self.x * mul == i32::MIN && div == -1),
            !(self.y * mul == i32::MIN && div == -1),
        ensures
            v.x == div_toward_zero(self.x * mul, div as int),
            v.y == div_toward_zero(self.y * mul, div as int),
    {
        Vertex { x: div_i32(self.x * mul, div), y: div_i32(self.y * mul, div) }
    }
}

pub struct LineDef {
    pub v1: Vertex,
    pub v2: Vertex,
    pub flags: u16,
    pub line_type: u16,
    pub sector_tag: u16,
    pub right_sidedef_idx: u16,
    pub left_sidedef_idx: u16,
}

impl LineDef {
    /// A line definition from its 14 bytes in the LINEDEFS lump; its vertices
    /// are looked up in the map's VERTEXES lump.
    pub fn from_lump(bytes: &[u8], map_data: &MapData) -> (l: Self)
        requires
            bytes@.len() >= 14,
            4 * u16_at(bytes@, 0) + 4 <= map_data.spec_lump(3).len(),
            4 * u16_at(bytes@, 2) + 4 <= map_data.spec_lump(3).len(),
        ensures
            l.v1 == vertex_at(map_data.spec_lump(3), u16_at(bytes@, 0)),
            l.v2 == vertex_at(map_data.spec_lump(3), u16_at(bytes@, 2)),
            l.flags == u16_at(bytes@, 4),
            l.line_type == u16_at(bytes@, 6),
            l.sector_tag == u16_at(bytes@, 8),
            l.right_sidedef_idx == u16_at(bytes@, 10),
            l.left_sidedef_idx == u16_at(bytes@, 12),
    {
        let vi1 = buf_to_u16(sub_slice(bytes, 0, 2)) as usize;
        let vi2 = buf_to_u16(sub_slice(bytes, 2, 4)) as usize;
        Self {
            v1: map_data.vertex(vi1),
            v2: map_data.vertex(vi2),
            flags: buf_to_u16(sub_slice(bytes, 4, 6)),
            line_type: buf_to_u16(sub_slice(bytes, 6, 8)),
            sector_tag: buf_to_u16(sub_slice(bytes, 8, 10)),
            right_sidedef_idx: buf_to_u16(sub_slice(bytes, 10, 12)),
            left_sidedef_idx: buf_to_u16(sub_slice(bytes, 12, 14)),
        }
    }
}

pub struct SideDef {
    pub x_offset: i16,
    pub y_offset: i16,
    pub upper_texture_key: u64,
    pub lower_texture_key: u64,
    pub middle_texture_key: u64,
    pub sector_idx: u16,
}

/// The hash of the lump name stored in the 8 bytes of `s` from `start` on.
pub open spec fn name_key_at(s: Seq<u8>, start: int) -> u64 {
    let n = s.subrange(start, start + 8);
    lump_hash(n.take(name_len(n)))
}

/// The little-endian `u16` at `start` in `s`.
pub open spec fn u16_at(s: Seq<u8>, start: int) -> int {
    le_u16(s[start], s[start + 1])
}

/// The little-endian `i16` at `start` in `s`.
pub open spec fn i16_at(s: Seq<u8>, start: int) -> int {
    as_signed16(le_u16(s[start], s[start + 1]))
}

/// The bytes `s[start..end]`.
pub(crate) fn sub_slice(s: &[u8], start: usize, end: usize) -> (r: &[u8])
    requires
        start <= end <= s@.len(),
    ensures
        r@ == s@.subrange(start as int, end as int),
{
    vstd::slice::slice_subrange(s, start, end)
}

impl SideDef {
    /// A side definition from its 30 bytes in the SIDEDEFS lump.
    pub fn from_lump(bytes: &[u8]) -> (s: Self)
        requires
            bytes@.len() >= 30,
        ensures
            s.x_offset == i16_at(bytes@, 0),
            s.y_offset == i16_at(bytes@, 2),
            s.upper_texture_key == name_key_at(bytes@, 4),
            s.lower_texture_key == name_key_at(bytes@, 12),
            s.middle_texture_key == name_key_at(bytes@, 20),
            s.sector_idx == u16_at(bytes@, 28),
    {
        let x_offset = buf_to_i16(sub_slice(bytes, 0, 2));
        let y_offset = buf_to_i16(sub_slice(bytes, 2, 4));
        let upper_texture_key = hash_lump_name(sub_slice(bytes, 4, 12));
        let lower_texture_key = hash_lump_name(sub_slice(bytes, 12, 20));
        let middle_texture_key = hash_lump_name(sub_slice(bytes, 20, 28));
        let sector_idx = buf_to_u16(sub_slice(bytes, 28, 30));
        Self { x_offset, y_offset, upper_texture_key, lower_texture_key, middle_texture_key, sector_idx }
    }
}

pub struct Sector {
    pub floor_height: i16,
    pub ceiling_height: i16,
    pub floor_flat_key: u64,
    pub ceiling_flat_key: u64,
    pub light_level: u16,
    pub special_type: u16,
    pub tag_nr: u16,
}

impl Sector {
    /// A sector from its 26 bytes in the SECTORS lump.
    pub fn from_lump(bytes: &[u8]) -> (s: Self)
        requires
            bytes@.len() >= 26,
        ensures
            s.floor_height == i16_at(bytes@, 0),
            s.ceiling_height == i16_at(bytes@, 2),
            s.floor_flat_key == name_key_at(bytes@, 4),
            s.ceiling_flat_key == name_key_at(bytes@, 12),
            s.light_level == u16_at(bytes@, 20),
            s.special_type == u16_at(bytes@, 22),
            s.tag_nr == u16_at(bytes@, 24),
    {
        Self {
            floor_height: buf_to_i16(sub_slice(bytes, 0, 2)),
            ceiling_height: buf_to_i16(sub_slice(bytes, 2, 4)),
            floor_flat_key: hash_lump_name(sub_slice(bytes, 4, 12)),
            ceiling_flat_key: hash_lump_name(sub_slice(bytes, 12, 20)),
            light_level: buf_to_u16(sub_slice(bytes, 20, 22)),
            special_type: buf_to_u16(sub_slice(bytes, 22, 24)),
            tag_nr: buf_to_u16(sub_slice(bytes, 24, 26)),
        }
    }
}

pub struct BspNode {
    vect_orig: Vertex,
    vect_dir: Vertex,
    _right_box_tr: Vertex,
    _right_box_bl: Vertex,
    _left_box_tr: Vertex,
    _left_box_bl: Vertex,
    pub right_child: u16,
    pub left_child: u16,
}

/// The `n` little-endian `i16` numbers at the start of `bytes`.
pub(crate) fn buf_to_i16_vect(bytes: &[u8], n: usize) -> (v: Vec<i16>)
    requires
        2 * n <= bytes@.len(),
    ensures
        v@.len() == n,
        forall|i: int| 0 <= i < n ==> v@[i] == i16_at(bytes@, 2 * i),
{
    let mut v: Vec<i16> = Vec::with_capacity(n);
    let total = bytes.len();
    let mut i: usize = 0;
    while i < n
        invariant
            i <= n,
            2 * n <= bytes@.len(),
            total == bytes@.len(),
            v@.len() == i,
            forall|j: int| 0 <= j < i ==> v@[j] == i16_at(bytes@, 2 * j),
        decreases n - i,
    {
        v.push(buf_to_i16(sub_slice(bytes, 2 * i, 2 * i + 2)));
        i = i + 1;
    }
    v
}

pub(crate) fn min_i16(a: i16, b: i16) -> (m: i16)
    ensures
        m == if a <= b {
            a
        } else {
            b
        },
{
    if a <= b {
        a
    } else {
        b
    }
}

pub(crate) fn max_i16(a: i16, b: i16) -> (m: i16)
    ensures
        m == if a >= b {
            a
        } else {
            b
        },
{
    if a >= b {
        a
    } else {
        b
    }
}

impl BspNode {
    /// The partition line: its origin.
    pub closed spec fn spec_orig(&self) -> Vertex {
        self.vect_orig
    }

    /// The partition line: its direction.
    pub closed spec fn spec_dir(&self) -> Vertex {
        self.vect_dir
    }

    /// The bounding boxes, as (top right, bottom left) of the right child,
    /// then of the left child.
    pub closed spec fn spec_boxes(&self) -> (Vertex, Vertex, Vertex, Vertex) {
        (self._right_box_tr, self._right_box_bl, self._left_box_tr, self._left_box_bl)
    }

    /// The indices of the right and the left child.
    pub closed spec fn spec_children(&self) -> (u16, u16) {
        (self.right_child, self.left_child)
    }

    /// A BSP node from its 28 bytes in the NODES lump.
    pub fn from_lump(bytes: &[u8]) -> (n: Self)
        requires
            bytes@.len() >= 28,
        ensures
            n.spec_orig() == (Vertex { x: i16_at(bytes@, 0) as i32, y: i16_at(bytes@, 2) as i32 }),
            n.spec_dir() == (Vertex { x: i16_at(bytes@, 4) as i32, y: i16_at(bytes@, 6) as i32 }),
            n.spec_boxes().0 == (Vertex {
                x: max_int(i16_at(bytes@, 12), i16_at(bytes@, 14)) as i32,
                y: max_int(i16_at(bytes@, 8), i16_at(bytes@, 10)) as i32,
            }),
            n.spec_boxes().1 == (Vertex {
                x: min_int(i16_at(bytes@, 12), i16_at(bytes@, 14)) as i32,
                y: min_int(i16_at(bytes@, 8), i16_at(bytes@, 10)) as i32,
            }),
            n.spec_boxes().2 == (Vertex {
                x: max_int(i16_at(bytes@, 20), i16_at(bytes@, 22)) as i32,
                y: max_int(i16_at(bytes@, 16), i16_at(bytes@, 18)) as i32,
            }),
            n.spec_boxes().3 == (Vertex {
                x: min_int(i16_at(bytes@, 20), i16_at(bytes@, 22)) as i32,
                y: min_int(i16_at(bytes@, 16), i16_at(bytes@, 18)) as i32,
            }),
            n.spec_children() == (u16_at(bytes@, 24) as u16, u16_at(bytes@, 26) as u16),
    {
        let vect = buf_to_i16_vect(sub_slice(bytes, 0, 24), 12);
        assert forall|i: int| 0 <= i < 12 implies #[trigger] vect@[i] == i16_at(bytes@, 2 * i) by {
            assert(bytes@.subrange(0, 24)[2 * i] == bytes@[2 * i]);
            assert(bytes@.subrange(0, 24)[2 * i + 1] == bytes@[2 * i + 1]);
        }
        Self {
            vect_orig: Vertex { x: vect[0] as i32, y: vect[1] as i32 },
            vect_dir: Vertex { x: vect[2] as i32, y: vect[3] as i32 },
            _right_box_bl: Vertex {
                x: min_i16(vect[6], vect[7]) as i32,
                y: min_i16(vect[4], vect[5]) as i32,
            },
            _right_box_tr: Vertex {
                x: max_i16(vect[6], vect[7]) as i32,
                y: max_i16(vect[4], vect[5]) as i32,
            },
            _left_box_bl: Vertex {
                x: min_i16(vect[10], vect[11]) as i32,
                y: min_i16(vect[8], vect[9]) as i32,
            },
            _left_box_tr: Vertex {
                x: max_i16(vect[10], vect[11]) as i32,
                y: max_i16(vect[8], vect[9]) as i32,
            },
            right_child: buf_to_u16(sub_slice(bytes, 24, 26)),
            left_child: buf_to_u16(sub_slice(bytes, 26, 28)),
        }
    }

    /// The point lies on the left of the partition line (or on it): the cross
    /// product of the line's direction and the vector from its origin to the
    /// point is not positive.
    pub fn is_point_on_left(&self, point: Vertex) -> (b: bool)
        requires
            point_test_in_range(self.spec_orig(), self.spec_dir(), point),
        ensures
            b == (cross_product(self.spec_orig(), self.spec_dir(), point) <= 0),
    {
        let pvect = point - self.vect_orig;
        let cross_product_dir = pvect.x * self.vect_dir.y - pvect.y * self.vect_dir.x;
        cross_product_dir <= 0
    }
}

/// The smaller of two numbers.
pub open spec fn min_int(a: int, b: int) -> int {
    if a <= b {
        a
    } else {
        b
    }
}

/// The larger of two numbers.
pub open spec fn max_int(a: int, b: int) -> int {
    if a >= b {
        a
    } else {
        b
    }
}

/// The cross product of `(point - orig)` and `dir`, as the left-side test computes it.
pub open spec fn cross_product(orig: Vertex, dir: Vertex, point: Vertex) -> int {
    (point.x - orig.x) * dir.y - (point.y - orig.y) * dir.x
}

/// The left-side test computes within `i32`.
pub open spec fn point_test_in_range(orig: Vertex, dir: Vertex, point: Vertex) -> bool {
    &&& i32::MIN <= point.x - orig.x <= i32::MAX
    &&& i32::MIN <= point.y - orig.y <= i32::MAX
    &&& i32::MIN <= (point.x - orig.x) * dir.y <= i32::MAX
    &&& i32::MIN <= (point.y - orig.y) * dir.x <= i32::MAX
    &&& i32::MIN <= cross_product(orig, dir, point) <= i32::MAX
}

} // verus!
