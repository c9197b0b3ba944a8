//! Store maps from the WAD, just as collections of lump bytes.
//! Used as immutable storage, from which to build each level map when it becomes active.
use super::lump_bytes::{bytes_as_slice, bytes_clone, bytes_empty, bytes_len, bytes_view};
use super::map_items::{i16_at, sub_slice, Vertex};
use super::utils::buf_to_i16;
use crate::text::same_text;
use bytes::Bytes;
use vstd::prelude::*;
use vstd::string::StringExecFns;

verus! {

/// The number of lumps that make up a map.
pub const LUMP_CNT: usize = 10;

/// Where each lump of a map is kept: THINGS, LINEDEFS, SIDEDEFS, VERTEXES,
/// SEGS, SSECTORS, NODES, SECTORS, REJECT, BLOCKMAP, in this order; `None`
/// for a name that is none of them.
pub open spec fn map_lump_index(name: Seq<char>) -> Option<int> {
    if name == "THINGS"@ {
        Some(0)
    } else if name == "LINEDEFS"@ {
        Some(1)
    } else if name == "SIDEDEFS"@ {
        Some(2)
    } else if name == "VERTEXES"@ {
        Some(3)
    } else if name == "SEGS"@ {
        Some(4)
    } else if name == "SSECTORS"@ {
        Some(5)
    } else if name == "NODES"@ {
        Some(6)
    } else if name == "SECTORS"@ {
        Some(7)
    } else if name == "REJECT"@ {
        Some(8)
    } else if name == "BLOCKMAP"@ {
        Some(9)
    } else {
        None
    }
}

/// Vertex `idx` of a VERTEXES lump: two little-endian `i16`, x then y.
pub open spec fn vertex_at(v: Seq<u8>, idx: int) -> Vertex {
    Vertex { x: i16_at(v, 4 * idx) as i32, y: i16_at(v, 4 * idx + 2) as i32 }
}

pub struct MapData {
    name: String,
    lumps: Vec<Bytes>,
}

impl MapData {
    #[verifier::type_invariant]
    spec fn has_all_slots(&self) -> bool {
        self.lumps@.len() == LUMP_CNT
    }

    /// The map's name.
    pub closed spec fn spec_name(&self) -> Seq<char> {
        self.name@
    }

    /// The bytes of the map's lump in slot `i` (empty until it is added).
    pub closed spec fn spec_lump(&self, i: int) -> Seq<u8> {
        bytes_view(self.lumps@[i])
    }

    pub fn new(name: &str) -> (m: Self)
        ensures
            m.spec_name() == name@,
            forall|i: int| 0 <= i < LUMP_CNT ==> #[trigger] m.spec_lump(i).len() == 0,
    {
        let mut lumps: Vec<Bytes> = Vec::new();
        let mut i: usize = 0;
        while i < LUMP_CNT
            invariant
                i <= LUMP_CNT,
                lumps@.len() == i,
                forall|j: int| 0 <= j < i ==> bytes_view(#[trigger] lumps@[j]).len() == 0,
            decreases LUMP_CNT - i,
        {
            lumps.push(bytes_empty());
            i = i + 1;
        }
        MapData { name: String::from_str(name), lumps }
    }

    /// Every lump of the map has been added, and none is empty.
    pub fn is_complete(&self) -> (r: bool)
        ensures
            r == forall|i: int| 0 <= i < LUMP_CNT ==> #[trigger] self.spec_lump(i).len() > 0,
    {
        proof {
            use_type_invariant(self);
        }
        let mut i: usize = 0;
        while i < LUMP_CNT
            invariant
                i <= LUMP_CNT,
                self.lumps@.len() == LUMP_CNT,
                forall|j: int| 0 <= j < i ==> #[trigger] self.spec_lump(j).len() > 0,
            decreases LUMP_CNT - i,
        {
            if bytes_len(&self.lumps[i]) == 0 {
                assert(self.spec_lump(i as int).len() == 0);
                return false;
            }
            i = i + 1;
        }
        true
    }

    pub fn name(&self) -> (n: &str)
        ensures
            n@ == self.spec_name(),
    {
        self.name.as_str()
    }

    /// The number of vertices: each takes 4 bytes of the VERTEXES lump.
    pub fn vertex_count(&self) -> (n: usize)
        ensures
            n == self.spec_lump(3).len() / 4,
    {
        proof {
            use_type_invariant(self);
        }
        let n = bytes_len(&self.lumps[3]);
        assert(n >> 2 == n / 4) by (bit_vector);
        n >> 2
    }

    /// Vertex `idx`, read from the VERTEXES lump.
    pub fn vertex(&self, idx: usize) -> (v: Vertex)
        requires
            4 * idx + 4 <= self.spec_lump(3).len(),
        ensures
            v == vertex_at(self.spec_lump(3), idx as int),
    {
        proof {
            use_type_invariant(self);
        }
        let bytes = bytes_as_slice(&self.lumps[3]);
        let len = bytes.len();
        let i = idx * 4;
        Vertex {
            x: buf_to_i16(sub_slice(bytes, i, i + 2)) as i32,
            y: buf_to_i16(sub_slice(bytes, i + 2, i + 4)) as i32,
        }
    }

    /// The lump in slot `i`.
    fn lump(&self, i: usize) -> (b: &Bytes)
        requires
            i < LUMP_CNT,
        ensures
            bytes_view(*b) == self.spec_lump(i as int),
    {
        proof {
            use_type_invariant(self);
        }
        &self.lumps[i]
    }

    pub fn things(&self) -> (b: &Bytes)
        ensures
            bytes_view(*b) == self.spec_lump(0),
    {
        self.lump(0)
    }

    pub fn linedefs(&self) -> (b: &Bytes)
        ensures
            bytes_view(*b) == self.spec_lump(1),
    {
        self.lump(1)
    }

    pub fn sidedefs(&self) -> (b: &Bytes)
        ensures
            bytes_view(*b) == self.spec_lump(2),
    {
        self.lump(2)
    }

    pub fn segs(&self) -> (b: &Bytes)
        ensures
            bytes_view(*b) == self.spec_lump(4),
    {
        self.lump(4)
    }

    pub fn ssectors(&self) -> (b: &Bytes)
        ensures
            bytes_view(*b) == self.spec_lump(5),
    {
        self.lump(5)
    }

    pub fn nodes(&self) -> (b: &Bytes)
        ensures
            bytes_view(*b) == self.spec_lump(6),
    {
        self.lump(6)
    }

    pub fn sectors(&self) -> (b: &Bytes)
        ensures
            bytes_view(*b) == self.spec_lump(7),
    {
        self.lump(7)
    }

    pub fn reject(&self) -> (b: &Bytes)
        ensures
            bytes_view(*b) == self.spec_lump(8),
    {
        self.lump(8)
    }

    pub fn blockmap(&self) -> (b: &Bytes)
        ensures
            bytes_view(*b) == self.spec_lump(9),
    {
        self.lump(9)
    }

    /// Stores the lump named `lump` in its slot and answers `true`; answers
    /// `false` and changes nothing for a name that is not one of a map's lumps
    /// (all the lumps of one map are consecutive, so that name ends the map).
    pub fn add_lump(&mut self, lump: &str, bytes: &Bytes) -> (r: bool)
        ensures
            r == (map_lump_index(lump@) is Some),
            final(self).spec_name() == old(self).spec_name(),
            forall|i: int|
                0 <= i < LUMP_CNT ==> #[trigger] final(self).spec_lump(i) == (if map_lump_index(
                    lump@,
                ) == Some(i) {
                    bytes_view(*bytes)
                } else {
                    old(self).spec_lump(i)
                }),
    {
        proof {
            use_type_invariant(&*self);
        }
        let idx: usize = if same_text(lump, "THINGS") {
            0
        } else if same_text(lump, "LINEDEFS") {
            1
        } else if same_text(lump, "SIDEDEFS") {
            2
        } else if same_text(lump, "VERTEXES") {
            3
        } else if same_text(lump, "SEGS") {
            4
        } else if same_text(lump, "SSECTORS") {
            5
        } else if same_text(lump, "NODES") {
            6
        } else if same_text(lump, "SECTORS") {
            7
        } else if same_text(lump, "REJECT") {
            8
        } else if same_text(lump, "BLOCKMAP") {
            9
        } else {
            usize::MAX
        };
        if idx < LUMP_CNT {
            let mut lumps: Vec<Bytes> = Vec::new();
            let mut i: usize = 0;
            while i < LUMP_CNT
                invariant
                    i <= LUMP_CNT,
                    idx < LUMP_CNT,
                    self.lumps@.len() == LUMP_CNT,
                    lumps@.len() == i,
                    forall|j: int|
                        0 <= j < i ==> bytes_view(#[trigger] lumps@[j]) == (if j == idx {
                            bytes_view(*bytes)
                        } else {
                            bytes_view(self.lumps@[j])
                        }),
                decreases LUMP_CNT - i,
            {
                if i == idx {
                    lumps.push(bytes_clone(bytes));
                } else {
                    lumps.push(bytes_clone(&self.lumps[i]));
                }
                i = i + 1;
            }
            self.lumps = lumps;
            true
        } else {
            false
        }
    }
}

impl Clone for MapData {
    fn clone(&self) -> (m: Self)
        ensures
            m.spec_name() == self.spec_name(),
            forall|i: int| 0 <= i < LUMP_CNT ==> #[trigger] m.spec_lump(i) == self.spec_lump(i),
    {
        proof {
            use_type_invariant(self);
        }
        let mut lumps: Vec<Bytes> = Vec::new();
        let mut i: usize = 0;
        while i < LUMP_CNT
            invariant
                i <= LUMP_CNT,
                self.lumps@.len() == LUMP_CNT,
                lumps@.len() == i,
                forall|j: int|
                    0 <= j < i ==> bytes_view(#[trigger] lumps@[j]) == bytes_view(self.lumps@[j]),
            decreases LUMP_CNT - i,
        {
            lumps.push(bytes_clone(&self.lumps[i]));
            i = i + 1;
        }
        MapData { name: self.name.clone(), lumps }
    }
}

} // verus!
