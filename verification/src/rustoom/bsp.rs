//! BSP nodes and BSP tree traversal, for each map.
use super::lump_bytes::{bytes_as_slice, bytes_len, bytes_view};
use super::map::{vertex_at, MapData, LUMP_CNT};
use super::map_items::{buf_to_i16_vect, cross_product, i16_at, max_i16, max_int, min_i16, min_int, point_test_in_range, sub_slice, u16_at, Vertex};
use super::utils::{buf_to_i16, buf_to_u16};
use vstd::prelude::*;

verus! {

/// Marks a child index that names a sub-sector rather than another node.
pub const SSECTOR_FLAG: u16 = 0x8000;

/// How far a walk may still go down from a node: a sub-sector is at the bottom.
pub open spec fn node_rank(idx: u16) -> nat {
    if idx >= 0x8000 {
        0
    } else {
        idx as nat + 1
    }
}

/// A segment of a sub-sector: start, end, angle, line definition, whether it
/// runs along its line, and its offset along it.
pub type SegView = (Vertex, Vertex, i16, u16, bool, i16);

pub struct Seg {
    pub start: Vertex,
    pub end: Vertex,
    _angle: i16,
    _linedef_idx: u16,
    _direction_same: bool,
    _offset: i16,
}

impl Seg {
    pub closed spec fn view_tuple(&self) -> SegView {
        (self.start, self.end, self._angle, self._linedef_idx, self._direction_same, self._offset)
    }
}

/// The segments of a sub-sector.
pub struct SubSector(pub Vec<Seg>);

/// A node of the BSP tree: its partition line, the bounding boxes of its
/// children, and its children.
pub struct BspNode {
    pub vect_orig: Vertex,
    pub vect_dir: Vertex,
    pub right_box_tr: Vertex,
    pub right_box_bl: Vertex,
    pub left_box_tr: Vertex,
    pub left_box_bl: Vertex,
    pub right_child: u16,
    pub left_child: u16,
}

impl BspNode {
    /// The point lies on the left of the partition line, or on it.
    fn is_point_on_left(&self, point: &Vertex) -> (b: bool)
        requires
            point_test_in_range(self.vect_orig, self.vect_dir, *point),
        ensures
            b == (cross_product(self.vect_orig, self.vect_dir, *point) <= 0),
    {
        let pvect = *point - self.vect_orig;
        let cross_product_dir = pvect.x * self.vect_dir.y - pvect.y * self.vect_dir.x;
        cross_product_dir <= 0
    }
}

/// The segments of a sub-sector, as values.
pub open spec fn sub_sector_view(s: SubSector) -> Seq<SegView> {
    s.0@.map_values(|g: Seg| g.view_tuple())
}

pub struct BspTree(MapData);

impl Clone for BspTree {
    fn clone(&self) -> (t: Self)
        ensures
            forall|i: int| 0 <= i < LUMP_CNT ==> #[trigger] t.spec_map().spec_lump(i) == self.spec_map().spec_lump(i),
            t.spec_map().spec_name() == self.spec_map().spec_name(),
    {
        BspTree(self.0.clone())
    }
}

impl BspTree {
    pub closed spec fn spec_map(&self) -> MapData {
        self.0
    }

    /// The NODES lump: 28 bytes per node.
    pub open spec fn nodes(&self) -> Seq<u8> {
        self.spec_map().spec_lump(6)
    }

    /// The SEGS lump: 12 bytes per segment.
    pub open spec fn segs(&self) -> Seq<u8> {
        self.spec_map().spec_lump(4)
    }

    /// The SSECTORS lump: 4 bytes per sub-sector.
    pub open spec fn ssectors(&self) -> Seq<u8> {
        self.spec_map().spec_lump(5)
    }

    /// The VERTEXES lump.
    pub open spec fn vertexes(&self) -> Seq<u8> {
        self.spec_map().spec_lump(3)
    }

    pub open spec fn node_orig(&self, idx: int) -> Vertex {
        Vertex { x: i16_at(self.nodes(), 28 * idx) as i32, y: i16_at(self.nodes(), 28 * idx + 2) as i32 }
    }

    pub open spec fn node_dir(&self, idx: int) -> Vertex {
        Vertex {
            x: i16_at(self.nodes(), 28 * idx + 4) as i32,
            y: i16_at(self.nodes(), 28 * idx + 6) as i32,
        }
    }

    /// The right child, then the left child, of node `idx`.
    pub open spec fn node_children(&self, idx: int) -> (u16, u16) {
        (u16_at(self.nodes(), 28 * idx + 24) as u16, u16_at(self.nodes(), 28 * idx + 26) as u16)
    }

    /// The children of node `idx` in the order a walk from `p` visits them:
    /// the side `p` is on first.
    pub open spec fn near_far(&self, idx: int, p: Vertex) -> (u16, u16) {
        if cross_product(self.node_orig(idx), self.node_dir(idx), p) <= 0 {
            (self.node_children(idx).1, self.node_children(idx).0)
        } else {
            (self.node_children(idx).0, self.node_children(idx).1)
        }
    }

    /// Segment `k` can be read: it lies in SEGS and names two vertices that
    /// lie in VERTEXES.
    pub open spec fn seg_ok(&self, k: int) -> bool {
        let s = i16_at(self.segs(), 12 * k);
        let e = i16_at(self.segs(), 12 * k + 2);
        &&& 12 * k + 12 <= self.segs().len()
        &&& 0 <= s && 4 * s + 4 <= self.vertexes().len()
        &&& 0 <= e && 4 * e + 4 <= self.vertexes().len()
    }

    /// The segment count and the first segment of sub-sector `s`.
    pub open spec fn sub_sector_range(&self, s: int) -> (int, int) {
        (u16_at(self.ssectors(), 4 * s), u16_at(self.ssectors(), 4 * s + 2))
    }

    /// Sub-sector `s` can be read, with all its segments.
    pub open spec fn sub_sector_ok(&self, s: int) -> bool {
        let (count, first) = self.sub_sector_range(s);
        &&& 4 * s + 4 <= self.ssectors().len()
        &&& (first + count) * 12 <= self.segs().len()
        &&& forall|j: int| 0 <= j < count ==> #[trigger] self.seg_ok(first + j)
    }

    /// Segment `k`, as values.
    pub open spec fn seg_view(&self, k: int) -> SegView {
        let b = self.segs();
        (
            vertex_at(self.vertexes(), i16_at(b, 12 * k)),
            vertex_at(self.vertexes(), i16_at(b, 12 * k + 2)),
            i16_at(b, 12 * k + 4) as i16,
            u16_at(b, 12 * k + 6) as u16,
            u16_at(b, 12 * k + 8) == 0,
            i16_at(b, 12 * k + 10) as i16,
        )
    }

    /// The segments of sub-sector `s`, as values.
    pub open spec fn sub_sector_segs(&self, s: int) -> Seq<SegView> {
        let (count, first) = self.sub_sector_range(s);
        Seq::new(count as nat, |j: int| self.seg_view(first + j))
    }

    /// The sub-sectors a walk from `p` down from node `idx` visits, in order:
    /// at each node, the side `p` is on first.
    pub open spec fn walk_order(&self, p: Vertex, idx: u16) -> Seq<int>
        decreases node_rank(idx),
    {
        if idx >= 0x8000 {
            seq![idx - 0x8000]
        } else {
            let (a, b) = self.near_far(idx as int, p);
            if node_rank(a) < node_rank(idx) && node_rank(b) < node_rank(idx) {
                self.walk_order(p, a) + self.walk_order(p, b)
            } else {
                Seq::empty()
            }
        }
    }

    /// The walk from `p` down from node `idx` reads only what is there: each
    /// node it reaches lies in NODES, its children come before it, the side
    /// test computes within `i32`, and each sub-sector it reaches can be read.
    pub open spec fn walk_ok(&self, p: Vertex, idx: u16) -> bool
        decreases node_rank(idx),
    {
        if idx >= 0x8000 {
            self.sub_sector_ok(idx - 0x8000)
        } else {
            let (a, b) = self.near_far(idx as int, p);
            if 28 * idx + 28 <= self.nodes().len() && point_test_in_range(
                self.node_orig(idx as int),
                self.node_dir(idx as int),
                p,
            ) && node_rank(a) < node_rank(idx) && node_rank(b) < node_rank(idx) {
                self.walk_ok(p, a) && self.walk_ok(p, b)
            } else {
                false
            }
        }
    }

    /// The number of nodes.
    pub open spec fn node_count(&self) -> int {
        (self.nodes().len() / 28) as int
    }

    pub fn new(map_data: &MapData) -> (t: Self)
        ensures
            forall|i: int| 0 <= i < LUMP_CNT ==> #[trigger] t.spec_map().spec_lump(i) == map_data.spec_lump(i),
            t.spec_map().spec_name() == map_data.spec_name(),
    {
        Self(map_data.clone())
    }

    /// The sub-sectors a walk from the player down from the root (the last
    /// node) visits, in order.
    pub fn locate_player(&self, player: &Vertex) -> (v: Vec<SubSector>)
        requires
            self.node_count() >= 1,
            self.walk_ok(*player, (self.node_count() - 1) as u16),
        ensures
            v@.len() == self.walk_order(*player, (self.node_count() - 1) as u16).len(),
            forall|i: int|
                0 <= i < v@.len() ==> sub_sector_view(#[trigger] v@[i]) == self.sub_sector_segs(
                    self.walk_order(*player, (self.node_count() - 1) as u16)[i],
                ),
    {
        let mut sect_collector: Vec<SubSector> = Vec::new();
        let start_idx = (self.get_node_count() - 1) as u16;
        self.render_node(player, &mut sect_collector, start_idx);
        assert forall|i: int| 0 <= i < sect_collector@.len() implies sub_sector_view(
            #[trigger] sect_collector@[i],
        ) == self.sub_sector_segs(self.walk_order(*player, start_idx)[i]) by {
            assert(sect_collector@[0 + i] == sect_collector@[i]);
        }
        sect_collector
    }

    fn render_node(&self, player: &Vertex, sect_collector: &mut Vec<SubSector>, node_idx: u16)
        requires
            self.walk_ok(*player, node_idx),
        ensures
            final(sect_collector)@.len() == old(sect_collector)@.len() + self.walk_order(
                *player,
                node_idx,
            ).len(),
            forall|i: int|
                0 <= i < old(sect_collector)@.len() ==> #[trigger] final(sect_collector)@[i]
                    == old(sect_collector)@[i],
            forall|i: int|
                0 <= i < self.walk_order(*player, node_idx).len() ==> sub_sector_view(
                    #[trigger] final(sect_collector)@[old(sect_collector)@.len() + i],
                ) == self.sub_sector_segs(self.walk_order(*player, node_idx)[i]),
        decreases node_rank(node_idx),
    {
        if (node_idx & SSECTOR_FLAG) == 0 {
            assert(node_idx < 0x8000) by (bit_vector)
                requires
                    (node_idx & 0x8000) == 0,
            ;
            let node = self.get_node(node_idx as usize);
            let is_on_left = node.is_point_on_left(player);
            let ghost before = sect_collector@;
            let (first, second) = if is_on_left {
                (node.left_child, node.right_child)
            } else {
                (node.right_child, node.left_child)
            };
            assert((first, second) == self.near_far(node_idx as int, *player));
            self.render_node(player, sect_collector, first);
            let ghost middle = sect_collector@;
            self.render_node(player, sect_collector, second);
            proof {
                let wa = self.walk_order(*player, first);
                let wb = self.walk_order(*player, second);
                assert(self.walk_order(*player, node_idx) == wa + wb);
                assert forall|i: int| 0 <= i < wa.len() + wb.len() implies sub_sector_view(
                    #[trigger] sect_collector@[before.len() + i],
                ) == self.sub_sector_segs((wa + wb)[i]) by {
                    if i < wa.len() {
                        assert(sect_collector@[before.len() + i] == middle[before.len() + i]);
                    } else {
                        let k = i - wa.len();
                        assert(before.len() + i == middle.len() + k);
                    }
                }
            }
        } else {
            assert(node_idx >= 0x8000) by (bit_vector)
                requires
                    (node_idx & 0x8000) != 0,
            ;
            let sect_idx = (node_idx & !SSECTOR_FLAG) as usize;
            assert(sect_idx == node_idx - 0x8000) by (bit_vector)
                requires
                    node_idx >= 0x8000,
                    sect_idx == (node_idx & !0x8000u16),
            ;
            let sect = self.sub_sector(sect_idx);
            sect_collector.push(sect);
        }
    }

    pub fn get_node_count(&self) -> (n: usize)
        ensures
            n == self.node_count(),
    {
        bytes_len(self.0.nodes()) / 28
    }

    /// Node `idx`, read from NODES.
    pub fn get_node(&self, idx: usize) -> (n: BspNode)
        requires
            28 * idx + 28 <= self.nodes().len(),
        ensures
            n.vect_orig == self.node_orig(idx as int),
            n.vect_dir == self.node_dir(idx as int),
            (n.right_child, n.left_child) == self.node_children(idx as int),
            n.right_box_tr == (Vertex {
                x: max_int(i16_at(self.nodes(), 28 * idx + 12), i16_at(self.nodes(), 28 * idx + 14)) as i32,
                y: max_int(i16_at(self.nodes(), 28 * idx + 8), i16_at(self.nodes(), 28 * idx + 10)) as i32,
            }),
            n.right_box_bl == (Vertex {
                x: min_int(i16_at(self.nodes(), 28 * idx + 12), i16_at(self.nodes(), 28 * idx + 14)) as i32,
                y: min_int(i16_at(self.nodes(), 28 * idx + 8), i16_at(self.nodes(), 28 * idx + 10)) as i32,
            }),
            n.left_box_tr == (Vertex {
                x: max_int(i16_at(self.nodes(), 28 * idx + 20), i16_at(self.nodes(), 28 * idx + 22)) as i32,
                y: max_int(i16_at(self.nodes(), 28 * idx + 16), i16_at(self.nodes(), 28 * idx + 18)) as i32,
            }),
            n.left_box_bl == (Vertex {
                x: min_int(i16_at(self.nodes(), 28 * idx + 20), i16_at(self.nodes(), 28 * idx + 22)) as i32,
                y: min_int(i16_at(self.nodes(), 28 * idx + 16), i16_at(self.nodes(), 28 * idx + 18)) as i32,
            }),
    {
        let nodes = bytes_as_slice(self.0.nodes());
        let len = nodes.len();
        let ofs = idx * 28;
        let buf = sub_slice(nodes, ofs, ofs + 28);
        let ghost nb = self.nodes();
        assert forall|i: int| 0 <= i < 28 implies #[trigger] buf@[i] == nb[28 * idx + i] by {}
        let vect = buf_to_i16_vect(sub_slice(buf, 0, 24), 12);
        assert forall|i: int| 0 <= i < 12 implies #[trigger] vect@[i] == i16_at(nb, 28 * idx + 2 * i) by {
            assert(buf@.subrange(0, 24)[2 * i] == nb[28 * idx + 2 * i]);
            assert(buf@.subrange(0, 24)[2 * i + 1] == nb[28 * idx + 2 * i + 1]);
        }
        BspNode {
            vect_orig: Vertex { x: vect[0] as i32, y: vect[1] as i32 },
            vect_dir: Vertex { x: vect[2] as i32, y: vect[3] as i32 },
            right_box_bl: Vertex {
                x: min_i16(vect[6], vect[7]) as i32,
                y: min_i16(vect[4], vect[5]) as i32,
            },
            right_box_tr: Vertex {
                x: max_i16(vect[6], vect[7]) as i32,
                y: max_i16(vect[4], vect[5]) as i32,
            },
            left_box_bl: Vertex {
                x: min_i16(vect[10], vect[11]) as i32,
                y: min_i16(vect[8], vect[9]) as i32,
            },
            left_box_tr: Vertex {
                x: max_i16(vect[10], vect[11]) as i32,
                y: max_i16(vect[8], vect[9]) as i32,
            },
            right_child: buf_to_u16(sub_slice(buf, 24, 26)),
            left_child: buf_to_u16(sub_slice(buf, 26, 28)),
        }
    }

    /// Sub-sector `sub_sect_idx`: its segments, read from SSECTORS and SEGS.
    fn sub_sector(&self, sub_sect_idx: usize) -> (s: SubSector)
        requires
            self.sub_sector_ok(sub_sect_idx as int),
        ensures
            sub_sector_view(s) == self.sub_sector_segs(sub_sect_idx as int),
    {
        let ssectors = bytes_as_slice(self.0.ssectors());
        let ss_len = ssectors.len();
        let ss_ofs = sub_sect_idx * 4;
        let seg_count = buf_to_u16(sub_slice(ssectors, ss_ofs, ss_ofs + 2)) as usize;
        let first_seg_idx = buf_to_u16(sub_slice(ssectors, ss_ofs + 2, ss_ofs + 4)) as usize;
        let mut segs: Vec<Seg> = Vec::new();
        let mut j: usize = 0;
        while j < seg_count
            invariant
                self.sub_sector_ok(sub_sect_idx as int),
                (seg_count as int, first_seg_idx as int) == self.sub_sector_range(sub_sect_idx as int),
                j <= seg_count,
                segs@.map_values(|g: Seg| g.view_tuple()) == self.sub_sector_segs(sub_sect_idx as int).take(j as int),
            decreases seg_count - j,
        {
            let g = self.seg(first_seg_idx + j);
            let ghost old_segs = segs@;
            segs.push(g);
            proof {
                let want = self.sub_sector_segs(sub_sect_idx as int);
                assert(want[j as int] == g.view_tuple());
                assert(want.take(j as int + 1) =~= want.take(j as int).push(want[j as int]));
                assert(segs@.map_values(|g: Seg| g.view_tuple()) =~= old_segs.map_values(
                    |g: Seg| g.view_tuple(),
                ).push(g.view_tuple()));
            }
            j = j + 1;
        }
        assert(self.sub_sector_segs(sub_sect_idx as int).take(seg_count as int) == self.sub_sector_segs(sub_sect_idx as int));
        SubSector(segs)
    }

    /// Segment `seg_idx`, read from SEGS, its vertices from VERTEXES.
    fn seg(&self, seg_idx: usize) -> (g: Seg)
        requires
            self.seg_ok(seg_idx as int),
        ensures
            g.view_tuple() == self.seg_view(seg_idx as int),
    {
        let segs = bytes_as_slice(self.0.segs());
        let len = segs.len();
        let ofs = seg_idx * 12;
        let buf = sub_slice(segs, ofs, ofs + 12);
        assert(buf@ == self.segs().subrange(12 * seg_idx, 12 * seg_idx + 12));
        let s = buf_to_i16(sub_slice(buf, 0, 2));
        let e = buf_to_i16(sub_slice(buf, 2, 4));
        Seg {
            start: self.0.vertex(s as usize),
            end: self.0.vertex(e as usize),
            _angle: buf_to_i16(sub_slice(buf, 4, 6)),
            _linedef_idx: buf_to_u16(sub_slice(buf, 6, 8)),
            _direction_same: 0 == buf_to_u16(sub_slice(buf, 8, 10)),
            _offset: buf_to_i16(sub_slice(buf, 10, 12)),
        }
    }
}

} // verus!
