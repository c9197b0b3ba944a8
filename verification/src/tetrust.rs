//! Tetrimino data and functionalities.
use vstd::prelude::*;

verus! {

/// The 4x3 cell `xy` (counted row by row from the top left) is set in the
/// 12-bit picture `bits` of a tetrimino.
pub open spec fn cell_set(bits: u32, xy: u32) -> bool {
    bits & (0x800u32 >> xy) != 0
}

/// The set cells among the first `n` cells of the picture, in order.
pub open spec fn set_cells(bits: u32, n: nat) -> Seq<int>
    decreases n,
{
    if n == 0 {
        Seq::empty()
    } else {
        let prev = set_cells(bits, (n - 1) as nat);
        if cell_set(bits, (n - 1) as u32) {
            prev.push(n - 1)
        } else {
            prev
        }
    }
}

/// Pieces other than `O` and `I` are 3 squares wide, which decides how they rotate.
pub open spec fn is_3_width(name: char) -> bool {
    name != 'O' && name != 'I'
}

/// The value that a rotation subtracts the y coordinate from.
pub open spec fn rotation_base(name: char) -> int {
    if is_3_width(name) {
        2
    } else {
        3
    }
}

/// Square `i` (of 16: 4 squares for each of the 4 rotations) of the tetrimino
/// drawn by `bits`, as `(x, y)`. The first rotation takes the set cells of the
/// picture in order (missing squares are at `(0, 0)`); each further rotation
/// turns the previous one by a quarter: `(x, y)` becomes `(base - y, x)`.
pub open spec fn square(name: char, bits: u32, i: nat) -> (int, int)
    decreases i,
{
    if i < 4 {
        let cells = set_cells(bits, 12);
        if i < cells.len() {
            (cells[i as int] % 4, cells[i as int] / 4)
        } else {
            (0, 0)
        }
    } else {
        let (px, py) = square(name, bits, (i - 4) as nat);
        (rotation_base(name) - py, px)
    }
}

/// The picture of the `k`-th of the seven tetriminoes, with its name.
pub open spec fn shape(k: int) -> (char, u32) {
    if k == 0 {
        ('O', 0b_0000_0110_0110u32)
    } else if k == 1 {
        ('I', 0b_0000_1111_0000u32)
    } else if k == 2 {
        ('T', 0b_0100_1110_0000u32)
    } else if k == 3 {
        ('S', 0b_0110_1100_0000u32)
    } else if k == 4 {
        ('Z', 0b_1100_0110_0000u32)
    } else if k == 5 {
        ('J', 0b_1000_1110_0000u32)
    } else {
        ('L', 0b_0010_1110_0000u32)
    }
}

/// Data structure for a tetrimino.
#[derive(Clone, Copy, Debug)]
pub struct Tetrimino {
    x: [i8; 16],
    y: [i8; 16],
    x_ofs: i16,
    y_ofs: i16,
    rotation: u8,
    color_idx: u8,
    name: u8,
}

proof fn lemma_set_cells_bounds(bits: u32, n: nat)
    requires
        n <= 12,
    ensures
        set_cells(bits, n).len() <= n,
        forall|j: int| 0 <= j < set_cells(bits, n).len() ==> 0 <= #[trigger] set_cells(bits, n)[j] < n,
    decreases n,
{
    if n > 0 {
        lemma_set_cells_bounds(bits, (n - 1) as nat);
    }
}

proof fn lemma_square_bounds(name: char, bits: u32, i: nat)
    requires
        i < 16,
    ensures
        i < 4 ==> 0 <= square(name, bits, i).0 <= 3 && 0 <= square(name, bits, i).1 <= 2,
        4 <= i < 8 ==> rotation_base(name) - 2 <= square(name, bits, i).0 <= rotation_base(name)
            && 0 <= square(name, bits, i).1 <= 3,
        8 <= i < 12 ==> rotation_base(name) - 3 <= square(name, bits, i).0 <= rotation_base(name)
            && rotation_base(name) - 2 <= square(name, bits, i).1 <= rotation_base(name),
        12 <= i ==> 0 <= square(name, bits, i).0 <= 2 && rotation_base(name) - 3 <= square(
            name,
            bits,
            i,
        ).1 <= rotation_base(name),
        -3 <= square(name, bits, i).0 <= 3,
        -3 <= square(name, bits, i).1 <= 3,
    decreases i,
{
    if i < 4 {
        lemma_set_cells_bounds(bits, 12);
    } else {
        lemma_square_bounds(name, bits, (i - 4) as nat);
    }
}

/// Internal function, for building a tetrimino.
fn internal_build_tetrimino(name: char, bits: u32) -> (t: Tetrimino)
    requires
        name as u32 <= 255,
    ensures
        t.wf(),
        t.name == name as u8,
        t.x_ofs == 0,
        t.y_ofs == (if is_3_width(name) {
            0i16
        } else {
            -1i16
        }),
        t.rotation == 0,
        t.color_idx == 0,
        forall|i: int| 0 <= i < 16 ==> t.x@[i] == square(name, bits, i as nat).0 && t.y@[i] == square(name, bits, i as nat).1,
{
    // check for pieces which are 3 squares wide
    // (this info is needed for computing the rotations)
    let is_3 = (name != 'O') && (name != 'I');
    let mut tx: [i8; 16] = [0;16];
    let mut ty: [i8; 16] = [0;16];

    // compute positions for the initial rotation
    let mut mask: u32 = 0b_1000_0000_0000;
    let mut idx: usize = 0;
    let mut xy: u32 = 0;
    proof {
        lemma_set_cells_bounds(bits, 12);
        assert(0x800u32 >> 0u32 == 0x800u32) by (bit_vector);
    }
    while mask > 0
        invariant
            xy <= 12,
            mask == 0x800u32 >> xy,
            idx == set_cells(bits, xy as nat).len(),
            idx <= xy,
            tx@.len() == 16,
            ty@.len() == 16,
            forall|k: int| 0 <= k < idx ==> tx@[k] == set_cells(bits, xy as nat)[k] % 4 && ty@[k] == set_cells(bits, xy as nat)[k] / 4,
            forall|k: int| idx <= k < 16 ==> tx@[k] == 0 && ty@[k] == 0,
        decreases 12 - xy,
    {
        assert(xy < 12) by (bit_vector)
            requires
                mask == 0x800u32 >> xy,
                mask > 0,
                xy <= 12,
        ;
        let ghost prev = set_cells(bits, xy as nat);
        if (bits & mask) != 0 {
            tx[idx] = (xy & 0x03) as i8;
            ty[idx] = ((xy >> 2) & 0x03) as i8;
            assert((xy & 0x03) == xy % 4 && ((xy >> 2) & 0x03) == xy / 4) by (bit_vector)
                requires
                    xy < 12,
            ;
            idx += 1;
        }
        assert(mask >> 1 == 0x800u32 >> (xy + 1)) by (bit_vector)
            requires
                mask == 0x800u32 >> xy,
                xy < 12,
        ;
        mask >>= 1;
        xy += 1;
    }
    assert(xy == 12) by (bit_vector)
        requires
            mask == 0x800u32 >> xy,
            mask == 0,
            xy <= 12,
    ;

    // compute all rotations
    let rotation_transformer: i8 = if is_3 {
        2
    } else {
        3
    };
    proof {
        assert forall|k: int| 0 <= k < 4 implies tx@[k] == square(name, bits, k as nat).0 && ty@[k] == square(name, bits, k as nat).1 by {
        }
    }
    let mut i: usize = 4;
    while i < 16
        invariant
            4 <= i <= 16,
            tx@.len() == 16,
            ty@.len() == 16,
            rotation_transformer == rotation_base(name),
            forall|k: int| 0 <= k < i ==> tx@[k] == square(name, bits, k as nat).0 && ty@[k] == square(name, bits, k as nat).1,
        decreases 16 - i,
    {
        proof {
            lemma_square_bounds(name, bits, (i - 4) as nat);
        }
        let nx = rotation_transformer - ty[i - 4];
        let ny = tx[i - 4];
        tx[i] = nx;
        ty[i] = ny;
        i += 1;
    }
    let t = Tetrimino {
        x: tx,
        y: ty,
        x_ofs: 0,
        y_ofs: if is_3 {
            0
        } else {
            -1
        },
        rotation: 0,
        color_idx: 0,
        name: name as u8,
    };
    proof {
        assert forall|k: int| 0 <= k < 16 implies -3 <= #[trigger] t.x@[k] <= 3 && -3 <= t.y@[k] <= 3 by {
            lemma_square_bounds(name, bits, k as nat);
        }
    }
    t
}

impl Tetrimino {
    /// The rotation is one of four, and the squares lie within -3..=3.
    pub closed spec fn wf(&self) -> bool {
        &&& self.rotation < 4
        &&& forall|k: int| 0 <= k < 16 ==> -3 <= #[trigger] self.x@[k] <= 3 && -3 <= self.y@[k] <= 3
    }

    pub closed spec fn spec_name(&self) -> u8 {
        self.name
    }

    pub closed spec fn spec_color_idx(&self) -> u8 {
        self.color_idx
    }

    /// The squares of all four rotations, before the offset.
    pub closed spec fn spec_squares(&self) -> (Seq<i8>, Seq<i8>) {
        (self.x@, self.y@)
    }

    pub closed spec fn spec_rotation(&self) -> int {
        self.rotation as int
    }

    pub closed spec fn spec_offset(&self) -> (int, int) {
        (self.x_ofs as int, self.y_ofs as int)
    }

    /// Square `i` of the current rotation, before the offset.
    pub closed spec fn spec_square(&self, i: int) -> (int, int) {
        (self.x@[i + 4 * self.rotation] as int, self.y@[i + 4 * self.rotation] as int)
    }

    /// Square `i` of rotation `r`, before the offset.
    pub closed spec fn spec_rotation_square(&self, r: int, i: int) -> (int, int) {
        (self.x@[i + 4 * r] as int, self.y@[i + 4 * r] as int)
    }

    /// The tetrimino of index `idx` (O, I, T, S, Z, J, L), in its first rotation,
    /// with its index as color.
    pub fn from_index(idx: usize) -> (t: Self)
        requires
            idx < 7,
        ensures
            t.wf(),
            t.spec_name() == shape(idx as int).0 as u8,
            t.spec_color_idx() == idx,
            t.spec_rotation() == 0,
            is_piece(t, idx as int),
            unslid_piece_of(t, idx as int),
            t.spec_offset() == (0int, if is_3_width(shape(idx as int).0) {
                0int
            } else {
                -1int
            }),
            forall|r: int, i: int|
                0 <= r < 4 && 0 <= i < 4 ==> t.spec_rotation_square(r, i) == square(
                    shape(idx as int).0,
                    shape(idx as int).1,
                    (i + 4 * r) as nat,
                ),
    {
        let (name, bits) = if idx == 0 {
            ('O', 0b_0000_0110_0110u32)
        } else if idx == 1 {
            ('I', 0b_0000_1111_0000u32)
        } else if idx == 2 {
            ('T', 0b_0100_1110_0000u32)
        } else if idx == 3 {
            ('S', 0b_0110_1100_0000u32)
        } else if idx == 4 {
            ('Z', 0b_1100_0110_0000u32)
        } else if idx == 5 {
            ('J', 0b_1000_1110_0000u32)
        } else {
            ('L', 0b_0010_1110_0000u32)
        };
        let mut tetr = internal_build_tetrimino(name, bits);
        tetr.color_idx = idx as u8;
        tetr
    }

    pub fn name(&self) -> (c: char)
        ensures
            c == self.spec_name() as char,
    {
        self.name as char
    }

    pub fn color_idx(&self) -> (c: usize)
        ensures
            c == self.spec_color_idx(),
    {
        self.color_idx as usize
    }

    /// The x coordinate of square `idx` of the current rotation, with the offset.
    pub fn x(&self, idx: usize) -> (r: i32)
        requires
            self.wf(),
            idx < 4,
        ensures
            r == self.spec_square(idx as int).0 + self.spec_offset().0,
            r == self.spec_rotation_square(self.spec_rotation(), idx as int).0 + self.spec_offset().0,
    {
        let rot = self.rotation;
        let base = (rot as usize) << 2;
        assert(base == 4 * rot) by (bit_vector)
            requires
                base == (rot as usize) << 2usize,
                rot < 4,
        ;
        let cidx = idx + base;
        (self.x[cidx] as i32) + (self.x_ofs as i32)
    }

    /// The y coordinate of square `idx` of the current rotation, with the offset.
    pub fn y(&self, idx: usize) -> (r: i32)
        requires
            self.wf(),
            idx < 4,
        ensures
            r == self.spec_square(idx as int).1 + self.spec_offset().1,
            r == self.spec_rotation_square(self.spec_rotation(), idx as int).1 + self.spec_offset().1,
    {
        let rot = self.rotation;
        let base = (rot as usize) << 2;
        assert(base == 4 * rot) by (bit_vector)
            requires
                base == (rot as usize) << 2usize,
                rot < 4,
        ;
        let cidx = idx + base;
        (self.y[cidx] as i32) + (self.y_ofs as i32)
    }

    /// Moves the tetrimino; the moves are taken as 16 bit numbers.
    pub fn slide(&mut self, delta_x: i32, delta_y: i32)
        requires
            old(self).wf(),
            i16::MIN <= old(self).spec_offset().0 + (delta_x as i16) <= i16::MAX,
            i16::MIN <= old(self).spec_offset().1 + (delta_y as i16) <= i16::MAX,
        ensures
            final(self).spec_offset() == (old(self).spec_offset().0 + (delta_x as i16), old(
                self,
            ).spec_offset().1 + (delta_y as i16)),
            final(self).spec_rotation() == old(self).spec_rotation(),
            final(self).spec_squares() == old(self).spec_squares(),
            0 <= final(self).spec_rotation() < 4,
            forall|r: int, i: int| #[trigger] final(self).spec_rotation_square(r, i) == old(self).spec_rotation_square(r, i),
            final(self).spec_name() == old(self).spec_name(),
            final(self).spec_color_idx() == old(self).spec_color_idx(),
            final(self).wf(),
            forall|k: int| #[trigger] piece_of(*old(self), k) ==> piece_of(*final(self), k),
    {
        self.x_ofs += delta_x as i16;
        self.y_ofs += delta_y as i16;
        proof {
            lemma_keeps_piece(*old(self), *self);
        }
    }

    /// Turns the tetrimino clockwise: the next of its four rotations.
    pub fn rotate_cw(&mut self)
        requires
            old(self).wf(),
        ensures
            final(self).wf(),
            final(self).spec_rotation() == (old(self).spec_rotation() + 1) % 4,
            final(self).spec_offset() == old(self).spec_offset(),
            final(self).spec_squares() == old(self).spec_squares(),
            0 <= final(self).spec_rotation() < 4,
            forall|r: int, i: int| #[trigger] final(self).spec_rotation_square(r, i) == old(self).spec_rotation_square(r, i),
            final(self).spec_name() == old(self).spec_name(),
            final(self).spec_color_idx() == old(self).spec_color_idx(),
            forall|k: int| #[trigger] piece_of(*old(self), k) ==> piece_of(*final(self), k),
            forall|k: int| #[trigger] unslid_piece_of(*old(self), k) ==> unslid_piece_of(*final(self), k),
    {
        let r = self.rotation;
        let nr = (r + 1) & 0x03;
        assert(nr == (r + 1) % 4) by (bit_vector)
            requires
                r < 4,
                nr == ((r + 1) as u8) & 3,
        ;
        self.rotation = nr;
        proof {
            lemma_keeps_piece(*old(self), *self);
        }
    }

    /// Turns the tetrimino counter-clockwise: the previous of its four rotations.
    pub fn rotate_ccw(&mut self)
        requires
            old(self).wf(),
        ensures
            final(self).wf(),
            final(self).spec_rotation() == (old(self).spec_rotation() + 3) % 4,
            final(self).spec_offset() == old(self).spec_offset(),
            final(self).spec_squares() == old(self).spec_squares(),
            0 <= final(self).spec_rotation() < 4,
            forall|r: int, i: int| #[trigger] final(self).spec_rotation_square(r, i) == old(self).spec_rotation_square(r, i),
            final(self).spec_name() == old(self).spec_name(),
            final(self).spec_color_idx() == old(self).spec_color_idx(),
            forall|k: int| #[trigger] piece_of(*old(self), k) ==> piece_of(*final(self), k),
            forall|k: int| #[trigger] unslid_piece_of(*old(self), k) ==> unslid_piece_of(*final(self), k),
    {
        let r = self.rotation;
        let nr = (r + 3) & 0x03;
        assert(nr == (r + 3) % 4) by (bit_vector)
            requires
                r < 4,
                nr == ((r + 3) as u8) & 3,
        ;
        self.rotation = nr;
        proof {
            lemma_keeps_piece(*old(self), *self);
        }
    }
}

/// The tetrimino of index `k`: each square of each of its rotations is the
/// one its picture gives.
pub open spec fn is_piece(t: Tetrimino, k: int) -> bool {
    &&& 0 <= k < 7
    &&& forall|r: int, i: int|
        0 <= r < 4 && 0 <= i < 4 ==> #[trigger] t.spec_rotation_square(r, i) == square(
            shape(k).0,
            shape(k).1,
            (i + 4 * r) as nat,
        )
}

/// The vertical offset a tetrimino of index `k` starts with.
pub open spec fn start_offset_y(k: int) -> int {
    if is_3_width(shape(k).0) {
        0
    } else {
        -1
    }
}

/// A well-formed tetrimino is in one of its four rotations, and its current
/// squares are those of that rotation.
pub proof fn lemma_wf_rotation(t: Tetrimino)
    requires
        t.wf(),
    ensures
        0 <= t.spec_rotation() < 4,
        forall|i: int| #[trigger] t.spec_square(i) == t.spec_rotation_square(t.spec_rotation(), i),
{
}

/// The squares of a tetrimino in any rotation lie in its 4 x 4 box (x within
/// 0..=3, y with the starting offset within -1..=2) and are four different
/// squares.
pub proof fn lemma_piece_squares(t: Tetrimino, k: int)
    requires
        t.wf(),
        is_piece(t, k),
    ensures
        forall|i: int|
            0 <= i < 4 ==> 0 <= #[trigger] t.spec_square(i).0 <= 3 && -1 <= t.spec_square(i).1 + start_offset_y(k) <= 2
                && 0 <= 4 * (t.spec_square(i).1 + start_offset_y(k)) + t.spec_square(i).0 + 4 < 16,
        forall|i: int, j: int| 0 <= i < j < 4 ==> #[trigger] t.spec_square(i) != #[trigger] t.spec_square(j),
{
    let r = t.spec_rotation();
    let (name, bits) = shape(k);
    assert forall|i: int| 0 <= i < 4 implies 0 <= #[trigger] t.spec_square(i).0 <= 3 && -1 <= t.spec_square(i).1
        + start_offset_y(k) <= 2 && 0 <= 4 * (t.spec_square(i).1 + start_offset_y(k)) + t.spec_square(i).0 + 4 < 16 by {
        assert(t.spec_square(i) == t.spec_rotation_square(r, i));
        lemma_tetrimino_fits_box(k, r, i);
        lemma_square_in_box(k, (i + 4 * r) as nat);
    }
    assert forall|i: int, j: int| 0 <= i < j < 4 implies #[trigger] t.spec_square(i) != #[trigger] t.spec_square(j) by {
        assert(t.spec_square(i) == t.spec_rotation_square(r, i));
        assert(t.spec_square(j) == t.spec_rotation_square(r, j));
        lemma_squares_distinct(k, r as nat, i as nat, j as nat);
    }
}

/// Each square lies within `0..=m` on both axes, `m` the rotation base.
proof fn lemma_square_in_box(k: int, n: nat)
    requires
        0 <= k < 7,
    ensures
        0 <= square(shape(k).0, shape(k).1, n).0 <= rotation_base(shape(k).0),
        0 <= square(shape(k).0, shape(k).1, n).1 <= rotation_base(shape(k).0),
{
    let (name, bits) = shape(k);
    lemma_shape_cells(k);
    assert forall|j: nat| j < 4 implies 0 <= #[trigger] square(name, bits, j).0 <= rotation_base(name)
        && 0 <= square(name, bits, j).1 <= rotation_base(name) by {
        lemma_tetrimino_fits_box(k, 0, j as int);
        let c = set_cells(bits, 12)[j as int];
        assert(square(name, bits, j) == (c % 4, c / 4));
        if is_3_width(name) {
            lemma_three_wide_cells(k, j as int);
        }
    }
    lemma_squares_in_square(name, bits, n);
}

/// The set cells of the pieces 3 squares wide are not in the last column.
proof fn lemma_three_wide_cells(k: int, j: int)
    requires
        0 <= k < 7,
        0 <= j < 4,
        is_3_width(shape(k).0),
    ensures
        set_cells(shape(k).1, 12)[j] % 4 <= 2,
{
    let bits = shape(k).1;
    lemma_set_cells_bounds(bits, 12);
    assert forall|xy: u32| xy < 12 && #[trigger] cell_set(bits, xy) implies xy % 4 <= 2 by {
        lemma_three_wide_columns(xy);
    }
    lemma_set_cells_columns(bits, 12);
    lemma_shape_cells(k);
}

/// Different squares of one rotation of a tetrimino are different.
proof fn lemma_squares_distinct(k: int, r: nat, i: nat, j: nat)
    requires
        0 <= k < 7,
        i < 4,
        j < 4,
        i != j,
    ensures
        square(shape(k).0, shape(k).1, i + 4 * r) != square(shape(k).0, shape(k).1, j + 4 * r),
    decreases r,
{
    let (name, bits) = shape(k);
    if r == 0 {
        lemma_shape_cells(k);
        let ci = set_cells(bits, 12)[i as int];
        let cj = set_cells(bits, 12)[j as int];
        assert(ci != cj);
        assert(0 <= ci < 12 && 0 <= cj < 12);
        assert(ci == 4 * (ci / 4) + ci % 4);
        assert(cj == 4 * (cj / 4) + cj % 4);
    } else {
        lemma_squares_distinct(k, (r - 1) as nat, i, j);
        assert((i + 4 * r - 4) as nat == i + 4 * (r - 1) as nat);
        assert((j + 4 * r - 4) as nat == j + 4 * (r - 1) as nat);
    }
}

/// Four quarter turns bring every square back.
pub proof fn lemma_four_turns_restore(name: char, bits: u32, i: nat)
    ensures
        square(name, bits, i + 16) == square(name, bits, i),
{
    let a = square(name, bits, i);
    let b = rotation_base(name);
    assert(square(name, bits, i + 4) == (b - a.1, a.0));
    assert(square(name, bits, i + 8) == (b - a.0, b - a.1));
    assert(square(name, bits, i + 12) == (a.1, b - a.0));
    assert(square(name, bits, i + 16) == (a.0, a.1));
}

/// Turning a tetrimino clockwise turns each of its squares by a quarter:
/// `(x, y)` becomes `(base - y, x)`, also from the last rotation to the first.
pub proof fn lemma_turned_piece(t: Tetrimino, u: Tetrimino, k: int)
    requires
        t.wf(),
        u.wf(),
        is_piece(t, k),
        is_piece(u, k),
        u.spec_rotation() == (t.spec_rotation() + 1) % 4,
    ensures
        forall|i: int|
            0 <= i < 4 ==> #[trigger] u.spec_square(i) == (
                rotation_base(shape(k).0) - t.spec_square(i).1,
                t.spec_square(i).0,
            ),
{
    let (name, bits) = shape(k);
    let r = t.spec_rotation();
    assert forall|i: int| 0 <= i < 4 implies #[trigger] u.spec_square(i) == (
        rotation_base(name) - t.spec_square(i).1,
        t.spec_square(i).0,
    ) by {
        assert(t.spec_square(i) == t.spec_rotation_square(r, i));
        assert(u.spec_square(i) == u.spec_rotation_square(u.spec_rotation(), i));
        lemma_rotation_is_quarter_turn(name, bits, r as nat, i as nat);
        if r == 3 {
            lemma_four_turns_restore(name, bits, i as nat);
            assert((i + 4 * 0) as nat == i as nat);
            assert(i as nat + 4 * (r as nat + 1) == i as nat + 16);
        }
    }
}

/// A tetrimino with the squares, name and color of a piece, in any rotation,
/// is still that piece; at the same offset it is still unslid.
proof fn lemma_keeps_piece(a: Tetrimino, b: Tetrimino)
    requires
        b.wf(),
        b.spec_squares() == a.spec_squares(),
        b.spec_name() == a.spec_name(),
        b.spec_color_idx() == a.spec_color_idx(),
    ensures
        forall|k: int| #[trigger] piece_of(a, k) ==> piece_of(b, k),
        b.spec_offset() == a.spec_offset() ==> forall|k: int| #[trigger] unslid_piece_of(a, k) ==> unslid_piece_of(b, k),
{
    assert forall|r: int, i: int| #[trigger] b.spec_rotation_square(r, i) == a.spec_rotation_square(r, i) by {
    }
    assert forall|k: int| #[trigger] piece_of(a, k) implies piece_of(b, k) by {
        assert forall|r: int, i: int| 0 <= r < 4 && 0 <= i < 4 implies #[trigger] b.spec_rotation_square(r, i) == square(
            shape(k).0,
            shape(k).1,
            (i + 4 * r) as nat,
        ) by {
            assert(b.spec_rotation_square(r, i) == a.spec_rotation_square(r, i));
        }
    }
}

/// `t` is the tetrimino of index `k` as `from_index` builds it, then slid and
/// turned any number of times: well formed, with the squares, the name and
/// the color of that tetrimino. `from_index` gives such a piece and every
/// move keeps it one.
pub open spec fn piece_of(t: Tetrimino, k: int) -> bool {
    &&& t.wf()
    &&& is_piece(t, k)
    &&& t.spec_name() == shape(k).0 as u8
    &&& t.spec_color_idx() == k
}

/// `t` is the tetrimino of index `k`, turned any number of times but never
/// slid: its offset is still the one it started with.
pub open spec fn unslid_piece_of(t: Tetrimino, k: int) -> bool {
    &&& piece_of(t, k)
    &&& t.spec_offset() == (0int, start_offset_y(k))
}

/// However a tetrimino is slid and turned, it keeps the name of its shape
/// (`O`, `I`, `T`, `S`, `Z`, `J`, `L` by index) and its index as color, so the
/// seven shapes have the seven colors 0 to 6.
pub proof fn lemma_moved_piece_keeps_name_and_color(t: Tetrimino, k: int)
    requires
        piece_of(t, k),
    ensures
        t.spec_name() as char == shape(k).0,
        t.spec_name() as char == seq!['O', 'I', 'T', 'S', 'Z', 'J', 'L'][k],
        t.spec_color_idx() == k,
        0 <= k < 7,
{
}

/// However a tetrimino is turned (and not slid), its four squares, at the
/// coordinates `x()` and `y()` give, lie in its 4 x 4 box (x within 0..=3, y
/// within -1..=2, so the box cell `4 * y + x + 4` within 0..16) and are four
/// different squares.
pub proof fn lemma_turned_piece_in_box(t: Tetrimino, k: int)
    requires
        unslid_piece_of(t, k),
    ensures
        forall|i: int|
            0 <= i < 4 ==> {
                let x = #[trigger] t.spec_square(i).0 + t.spec_offset().0;
                let y = t.spec_square(i).1 + t.spec_offset().1;
                &&& 0 <= x <= 3
                &&& -1 <= y <= 2
                &&& 0 <= 4 * y + x + 4 < 16
            },
        forall|i: int, j: int|
            0 <= i < j < 4 ==> (t.spec_square(i).0 + t.spec_offset().0, t.spec_square(i).1 + t.spec_offset().1) != (
                t.spec_square(j).0 + t.spec_offset().0,
                t.spec_square(j).1 + t.spec_offset().1,
            ),
{
    lemma_piece_squares(t, k);
    assert forall|i: int, j: int| 0 <= i < j < 4 implies (t.spec_square(i).0 + t.spec_offset().0, t.spec_square(i).1
        + t.spec_offset().1) != (t.spec_square(j).0 + t.spec_offset().0, t.spec_square(j).1 + t.spec_offset().1) by {
        assert(t.spec_square(i) != t.spec_square(j));
    }
}

/// A clockwise turn of a tetrimino that was never slid moves each square by
/// a fixed formula: `(x, y)` becomes `(2 - y, x)` for the pieces 3 squares
/// wide and `(2 - y, x - 1)` for `O` and `I` (in the coordinates `x()` and
/// `y()` give).
pub proof fn lemma_turned_piece_coordinates(t: Tetrimino, u: Tetrimino, k: int)
    requires
        unslid_piece_of(t, k),
        unslid_piece_of(u, k),
        u.spec_rotation() == (t.spec_rotation() + 1) % 4,
    ensures
        forall|i: int|
            0 <= i < 4 ==> #[trigger] u.spec_square(i).0 + u.spec_offset().0 == 2 - (t.spec_square(i).1
                + t.spec_offset().1) && u.spec_square(i).1 + u.spec_offset().1 == t.spec_square(i).0
                + t.spec_offset().0 + start_offset_y(k),
{
    lemma_turned_piece(t, u, k);
    assert forall|i: int| 0 <= i < 4 implies #[trigger] u.spec_square(i).0 + u.spec_offset().0 == 2 - (
    t.spec_square(i).1 + t.spec_offset().1) && u.spec_square(i).1 + u.spec_offset().1 == t.spec_square(i).0
        + t.spec_offset().0 + start_offset_y(k) by {
        assert(u.spec_square(i) == (rotation_base(shape(k).0) - t.spec_square(i).1, t.spec_square(i).0));
    }
}

/// Two moves of one tetrimino in the same rotation and at the same offset
/// have the same squares: so four clockwise turns, or a clockwise and a
/// counter-clockwise turn, bring back every coordinate (see
/// [`lemma_rotations_cancel`]).
pub proof fn lemma_same_rotation_same_squares(t: Tetrimino, u: Tetrimino, k: int)
    requires
        piece_of(t, k),
        piece_of(u, k),
        u.spec_rotation() == t.spec_rotation(),
    ensures
        forall|i: int| 0 <= i < 4 ==> #[trigger] u.spec_square(i) == t.spec_square(i),
{
    let r = t.spec_rotation();
    assert forall|i: int| 0 <= i < 4 implies #[trigger] u.spec_square(i) == t.spec_square(i) by {
        assert(t.spec_square(i) == t.spec_rotation_square(r, i));
        assert(u.spec_square(i) == u.spec_rotation_square(r, i));
    }
}

/// Turning a tetrimino clockwise and then counter-clockwise (or the other way
/// round) brings it back to the same rotation, and four turns the same way do too.
pub proof fn lemma_rotations_cancel(r: int)
    requires
        0 <= r < 4,
    ensures
        ((r + 1) % 4 + 3) % 4 == r,
        ((r + 3) % 4 + 1) % 4 == r,
        ((((r + 1) % 4 + 1) % 4 + 1) % 4 + 1) % 4 == r,
{
}

/// Each rotation of a tetrimino is the previous one turned by a quarter:
/// square `(x, y)` of rotation `r` becomes `(base - y, x)` in rotation `r + 1`.
pub proof fn lemma_rotation_is_quarter_turn(name: char, bits: u32, r: nat, i: nat)
    requires
        i < 4,
    ensures
        square(name, bits, i + 4 * (r + 1)) == (
            rotation_base(name) - square(name, bits, i + 4 * r).1,
            square(name, bits, i + 4 * r).0,
        ),
{
}


/// The pieces 3 squares wide never use the last column of their picture.
proof fn lemma_three_wide_columns(xy: u32)
    by (bit_vector)
    requires
        xy < 12,
    ensures
        (0b_0100_1110_0000u32 & (0x800u32 >> xy)) != 0 ==> xy % 4 <= 2,
        (0b_0110_1100_0000u32 & (0x800u32 >> xy)) != 0 ==> xy % 4 <= 2,
        (0b_1100_0110_0000u32 & (0x800u32 >> xy)) != 0 ==> xy % 4 <= 2,
        (0b_1000_1110_0000u32 & (0x800u32 >> xy)) != 0 ==> xy % 4 <= 2,
        (0b_0010_1110_0000u32 & (0x800u32 >> xy)) != 0 ==> xy % 4 <= 2,
{
}

/// The set cells of a picture that sets no cell of its last column are not
/// in its last column.
proof fn lemma_set_cells_columns(bits: u32, n: nat)
    requires
        n <= 12,
        forall|xy: u32| xy < 12 && #[trigger] cell_set(bits, xy) ==> xy % 4 <= 2,
    ensures
        forall|j: int| 0 <= j < set_cells(bits, n).len() ==> #[trigger] set_cells(bits, n)[j] % 4 <= 2,
    decreases n,
{
    if n > 0 {
        lemma_set_cells_columns(bits, (n - 1) as nat);
        let prev = set_cells(bits, (n - 1) as nat);
        if cell_set(bits, (n - 1) as u32) {
            assert(((n - 1) as u32) as int == n - 1);
            assert(((n - 1) as u32) % 4 <= 2);
            assert(set_cells(bits, n) == prev.push(n - 1));
            assert forall|j: int| 0 <= j < set_cells(bits, n).len() implies #[trigger] set_cells(bits, n)[j] % 4
                <= 2 by {
                if j < prev.len() {
                    assert(set_cells(bits, n)[j] == prev[j]);
                }
            }
        }
    }
}

/// Every square of every rotation lies within `0..=m` on both axes, where
/// `m` is the rotation base, when the first rotation does.
proof fn lemma_squares_in_square(name: char, bits: u32, i: nat)
    requires
        forall|k: nat| k < 4 ==> 0 <= #[trigger] square(name, bits, k).0 <= rotation_base(name) && 0
            <= square(name, bits, k).1 <= rotation_base(name),
    ensures
        0 <= square(name, bits, i).0 <= rotation_base(name),
        0 <= square(name, bits, i).1 <= rotation_base(name),
    decreases i,
{
    if i >= 4 {
        lemma_squares_in_square(name, bits, (i - 4) as nat);
    }
}

/// Where square `i` of rotation `r` of tetrimino `k`, with its first offset,
/// falls in a 4 x 4 box whose first row is one above the offset: `4 * y + x + 4`.
pub open spec fn box_cell(k: int, r: int, i: int) -> int {
    let (name, bits) = shape(k);
    let (x, y) = square(name, bits, (i + 4 * r) as nat);
    let oy = if is_3_width(name) {
        0
    } else {
        -1
    };
    4 * (y + oy) + x + 4
}

/// Every square of every rotation of every tetrimino falls within the 4 x 4
/// box that the pieces are drawn in.
pub proof fn lemma_tetrimino_fits_box(k: int, r: int, i: int)
    requires
        0 <= k < 7,
        0 <= r < 4,
        0 <= i < 4,
    ensures
        0 <= box_cell(k, r, i) < 16,
{
    let (name, bits) = shape(k);
    lemma_set_cells_bounds(bits, 12);
    if is_3_width(name) {
        assert forall|xy: u32| xy < 12 && #[trigger] cell_set(bits, xy) implies xy % 4 <= 2 by {
            lemma_three_wide_columns(xy);
        }
        lemma_set_cells_columns(bits, 12);
        assert forall|j: nat| j < 4 implies 0 <= #[trigger] square(name, bits, j).0 <= rotation_base(name)
            && 0 <= square(name, bits, j).1 <= rotation_base(name) by {
            let cells = set_cells(bits, 12);
            if j < cells.len() {
                assert(cells[j as int] % 4 <= 2);
            }
        }
    } else {
        assert forall|j: nat| j < 4 implies 0 <= #[trigger] square(name, bits, j).0 <= rotation_base(name)
            && 0 <= square(name, bits, j).1 <= rotation_base(name) by {
        }
    }
    lemma_squares_in_square(name, bits, (i + 4 * r) as nat);
}


/// Square `i` of rotation `r` of tetrimino `k` falls on box cell `c`.
pub open spec fn covers(k: int, r: int, c: int, n: int) -> bool {
    exists|i: int| 0 <= i < n && box_cell(k, r, i) == c
}

/// The picture of rotation `r` of tetrimino `k`: its 4 x 4 box, row by row,
/// `#` where a square falls and `.` elsewhere.
pub open spec fn picture(k: int, r: int) -> Seq<char> {
    Seq::new(16, |c: int| if covers(k, r, c, 4) { '#' } else { '.' })
}

/// Row `i` of the four pictures of tetrimino `k` side by side, each after
/// three spaces.
pub open spec fn picture_row(k: int, i: int) -> Seq<char> {
    "   "@ + picture(k, 0).subrange(4 * i, 4 * i + 4) + "   "@ + picture(k, 1).subrange(4 * i, 4 * i + 4)
        + "   "@ + picture(k, 2).subrange(4 * i, 4 * i + 4) + "   "@ + picture(k, 3).subrange(4 * i, 4 * i + 4)
}

/// The picture of the current rotation of a tetrimino of index `k`, fresh
/// from `from_index` and turned `r` times.
fn rotation_picture(t: &Tetrimino, Ghost(k): Ghost<int>) -> (p: Vec<char>)
    requires
        0 <= k < 7,
        t.wf(),
        t.spec_offset() == (0int, if is_3_width(shape(k).0) { 0int } else { -1int }),
        forall|r: int, i: int|
            0 <= r < 4 && 0 <= i < 4 ==> t.spec_rotation_square(r, i) == square(shape(k).0, shape(k).1, (i + 4 * r) as nat),
    ensures
        p@ == picture(k, t.spec_rotation()),
{
    let ghost r = t.spec_rotation();
    let mut p: Vec<char> = Vec::new();
    let mut c: usize = 0;
    while c < 16
        invariant
            c <= 16,
            p@.len() == c,
            forall|j: int| 0 <= j < c ==> p@[j] == '.',
        decreases 16 - c,
    {
        p.push('.');
        c = c + 1;
    }
    let mut i: usize = 0;
    while i < 4
        invariant
            0 <= k < 7,
            t.wf(),
            0 <= r < 4,
            r == t.spec_rotation(),
            t.spec_offset() == (0int, if is_3_width(shape(k).0) { 0int } else { -1int }),
            forall|r2: int, i2: int|
                0 <= r2 < 4 && 0 <= i2 < 4 ==> t.spec_rotation_square(r2, i2) == square(shape(k).0, shape(k).1, (i2 + 4 * r2) as nat),
            i <= 4,
            p@.len() == 16,
            forall|j: int| 0 <= j < 16 ==> #[trigger] p@[j] == if covers(k, r, j, i as int) { '#' } else { '.' },
        decreases 4 - i,
    {
        let x = t.x(i);
        let y = t.y(i);
        proof {
            lemma_tetrimino_fits_box(k, r, i as int);
            assert(t.spec_square(i as int) == t.spec_rotation_square(r, i as int));
            assert(y * 4 + x + 4 == box_cell(k, r, i as int));
        }
        let cell = (y * 4 + x + 4) as usize;
        p.set(cell, '#');
        proof {
            assert forall|j: int| 0 <= j < 16 implies #[trigger] p@[j] == if covers(k, r, j, i as int + 1) { '#' } else { '.' } by {
                if j == cell {
                    assert(box_cell(k, r, i as int) == j);
                } else if covers(k, r, j, i as int + 1) {
                    let i2 = choose|i2: int| 0 <= i2 < i + 1 && box_cell(k, r, i2) == j;
                    assert(i2 != i);
                    assert(covers(k, r, j, i as int));
                }
            }
        }
        i = i + 1;
    }
    assert(p@ == picture(k, r));
    p
}

/// The lines that show tetrimino `idx`: its name and color, then its four
/// rotations side by side, row by row.
pub fn tetrimino_lines(idx: usize) -> (lines: Vec<String>)
    requires
        idx < 7,
    ensures
        lines@.len() == 5,
        lines@[0]@ == "--> Tetrimino "@ + seq![shape(idx as int).0] + " (color = "@ + crate::text::decimal(idx as nat) + ")"@,
        forall|i: int| 0 <= i < 4 ==> #[trigger] lines@[i + 1]@ == picture_row(idx as int, i),
{
    let mut tetr = Tetrimino::from_index(idx);
    let ghost k = idx as int;
    let mut rots: Vec<Vec<char>> = Vec::new();
    let mut r: usize = 0;
    while r < 4
        invariant
            0 <= k < 7,
            k == idx,
            r <= 4,
            tetr.wf(),
            tetr.spec_rotation() == r % 4,
            tetr.spec_name() == shape(k).0 as u8,
            tetr.spec_color_idx() == idx,
            tetr.spec_offset() == (0int, if is_3_width(shape(k).0) { 0int } else { -1int }),
            forall|r2: int, i2: int|
                0 <= r2 < 4 && 0 <= i2 < 4 ==> tetr.spec_rotation_square(r2, i2) == square(shape(k).0, shape(k).1, (i2 + 4 * r2) as nat),
            rots@.len() == r,
            forall|j: int| 0 <= j < r ==> (#[trigger] rots@[j])@ == picture(k, j),
        decreases 4 - r,
    {
        let p = rotation_picture(&tetr, Ghost(k));
        rots.push(p);
        let ghost before = tetr;
        tetr.rotate_cw();
        proof {
            assert forall|r2: int, i2: int| 0 <= r2 < 4 && 0 <= i2 < 4 implies tetr.spec_rotation_square(r2, i2)
                == square(shape(k).0, shape(k).1, (i2 + 4 * r2) as nat) by {
                assert(tetr.spec_rotation_square(r2, i2) == before.spec_rotation_square(r2, i2));
            }
        }
        r = r + 1;
    }
    let mut lines: Vec<String> = Vec::new();
    let name = crate::text::chars_to_string(vec![tetr.name()]);
    let head = crate::text::joined(String::from_str("--> Tetrimino "), name.as_str());
    let head = crate::text::joined(head, " (color = ");
    let head = crate::text::joined(head, crate::text::decimal_string(tetr.color_idx() as u64).as_str());
    let head = crate::text::joined(head, ")");
    proof {
        assert(shape(k).0 as u8 as char == shape(k).0);
    }
    lines.push(head);
    let mut i: usize = 0;
    while i < 4
        invariant
            0 <= k < 7,
            i <= 4,
            rots@.len() == 4,
            forall|j: int| 0 <= j < 4 ==> (#[trigger] rots@[j])@ == picture(k, j),
            lines@.len() == i + 1,
            lines@[0]@ == "--> Tetrimino "@ + seq![shape(idx as int).0] + " (color = "@ + crate::text::decimal(idx as nat) + ")"@,
            forall|i2: int| 0 <= i2 < i ==> #[trigger] lines@[i2 + 1]@ == picture_row(k, i2),
        decreases 4 - i,
    {
        let mut row: Vec<char> = Vec::new();
        let mut j: usize = 0;
        while j < 4
            invariant
                0 <= k < 7,
                i < 4,
                j <= 4,
                rots@.len() == 4,
                forall|j2: int| 0 <= j2 < 4 ==> (#[trigger] rots@[j2])@ == picture(k, j2),
                row@ == pieces(k, i as int, j as int),
            decreases 4 - j,
        {
            row.push(' ');
            row.push(' ');
            row.push(' ');
            proof {
                reveal_strlit("   ");
                assert(picture(k, j as int).subrange(4 * i, 4 * i + 0) == Seq::<char>::empty());
                assert(row@ == pieces(k, i as int, j as int) + "   "@ + picture(k, j as int).subrange(4 * i, 4 * i + 0));
            }
            let mut c: usize = 0;
            while c < 4
                invariant
                    0 <= k < 7,
                    i < 4,
                    j < 4,
                    c <= 4,
                    rots@.len() == 4,
                    forall|j2: int| 0 <= j2 < 4 ==> (#[trigger] rots@[j2])@ == picture(k, j2),
                    row@ == pieces(k, i as int, j as int) + "   "@ + picture(k, j as int).subrange(4 * i, 4 * i + c),
                decreases 4 - c,
            {
                proof {
                    reveal_strlit("   ");
                }
                row.push(rots[j][4 * i + c]);
                proof {
                    assert(picture(k, j as int).subrange(4 * i, 4 * i + c + 1) == picture(k, j as int).subrange(4 * i, 4 * i + c).push(picture(k, j as int)[4 * i + c]));
                }
                c = c + 1;
            }
            proof {
                reveal_strlit("   ");
            }
            j = j + 1;
        }
        proof {
            reveal_with_fuel(pieces, 5);
            assert(row@ == picture_row(k, i as int));
        }
        lines.push(crate::text::chars_to_string(row));
        i = i + 1;
    }
    lines
}

/// Rows `i` of the first `j` pictures of tetrimino `k`, each after three spaces.
pub open spec fn pieces(k: int, i: int, j: int) -> Seq<char>
    decreases j,
{
    if j <= 0 {
        Seq::empty()
    } else {
        pieces(k, i, j - 1) + "   "@ + picture(k, j - 1).subrange(4 * i, 4 * i + 4)
    }
}

/// Which cells of the seven pictures are set.
proof fn lemma_shape_bits()
    by (bit_vector)
    ensures
        !cell_set(0x66u32, 0u32),
        !cell_set(0x66u32, 1u32),
        !cell_set(0x66u32, 2u32),
        !cell_set(0x66u32, 3u32),
        !cell_set(0x66u32, 4u32),
        cell_set(0x66u32, 5u32),
        cell_set(0x66u32, 6u32),
        !cell_set(0x66u32, 7u32),
        !cell_set(0x66u32, 8u32),
        cell_set(0x66u32, 9u32),
        cell_set(0x66u32, 10u32),
        !cell_set(0x66u32, 11u32),
        !cell_set(0xf0u32, 0u32),
        !cell_set(0xf0u32, 1u32),
        !cell_set(0xf0u32, 2u32),
        !cell_set(0xf0u32, 3u32),
        cell_set(0xf0u32, 4u32),
        cell_set(0xf0u32, 5u32),
        cell_set(0xf0u32, 6u32),
        cell_set(0xf0u32, 7u32),
        !cell_set(0xf0u32, 8u32),
        !cell_set(0xf0u32, 9u32),
        !cell_set(0xf0u32, 10u32),
        !cell_set(0xf0u32, 11u32),
        !cell_set(0x4e0u32, 0u32),
        cell_set(0x4e0u32, 1u32),
        !cell_set(0x4e0u32, 2u32),
        !cell_set(0x4e0u32, 3u32),
        cell_set(0x4e0u32, 4u32),
        cell_set(0x4e0u32, 5u32),
        cell_set(0x4e0u32, 6u32),
        !cell_set(0x4e0u32, 7u32),
        !cell_set(0x4e0u32, 8u32),
        !cell_set(0x4e0u32, 9u32),
        !cell_set(0x4e0u32, 10u32),
        !cell_set(0x4e0u32, 11u32),
        !cell_set(0x6c0u32, 0u32),
        cell_set(0x6c0u32, 1u32),
        cell_set(0x6c0u32, 2u32),
        !cell_set(0x6c0u32, 3u32),
        cell_set(0x6c0u32, 4u32),
        cell_set(0x6c0u32, 5u32),
        !cell_set(0x6c0u32, 6u32),
        !cell_set(0x6c0u32, 7u32),
        !cell_set(0x6c0u32, 8u32),
        !cell_set(0x6c0u32, 9u32),
        !cell_set(0x6c0u32, 10u32),
        !cell_set(0x6c0u32, 11u32),
        cell_set(0xc60u32, 0u32),
        cell_set(0xc60u32, 1u32),
        !cell_set(0xc60u32, 2u32),
        !cell_set(0xc60u32, 3u32),
        !cell_set(0xc60u32, 4u32),
        cell_set(0xc60u32, 5u32),
        cell_set(0xc60u32, 6u32),
        !cell_set(0xc60u32, 7u32),
        !cell_set(0xc60u32, 8u32),
        !cell_set(0xc60u32, 9u32),
        !cell_set(0xc60u32, 10u32),
        !cell_set(0xc60u32, 11u32),
        cell_set(0x8e0u32, 0u32),
        !cell_set(0x8e0u32, 1u32),
        !cell_set(0x8e0u32, 2u32),
        !cell_set(0x8e0u32, 3u32),
        cell_set(0x8e0u32, 4u32),
        cell_set(0x8e0u32, 5u32),
        cell_set(0x8e0u32, 6u32),
        !cell_set(0x8e0u32, 7u32),
        !cell_set(0x8e0u32, 8u32),
        !cell_set(0x8e0u32, 9u32),
        !cell_set(0x8e0u32, 10u32),
        !cell_set(0x8e0u32, 11u32),
        !cell_set(0x2e0u32, 0u32),
        !cell_set(0x2e0u32, 1u32),
        cell_set(0x2e0u32, 2u32),
        !cell_set(0x2e0u32, 3u32),
        cell_set(0x2e0u32, 4u32),
        cell_set(0x2e0u32, 5u32),
        cell_set(0x2e0u32, 6u32),
        !cell_set(0x2e0u32, 7u32),
        !cell_set(0x2e0u32, 8u32),
        !cell_set(0x2e0u32, 9u32),
        !cell_set(0x2e0u32, 10u32),
        !cell_set(0x2e0u32, 11u32),
{
}

/// The set cells of the picture of tetrimino `k`, in order.
pub open spec fn shape_cells(k: int) -> Seq<int> {
    if k == 0 {
        seq![5int, 6int, 9int, 10int]
    } else if k == 1 {
        seq![4int, 5int, 6int, 7int]
    } else if k == 2 {
        seq![1int, 4int, 5int, 6int]
    } else if k == 3 {
        seq![1int, 2int, 4int, 5int]
    } else if k == 4 {
        seq![0int, 1int, 5int, 6int]
    } else if k == 5 {
        seq![0int, 4int, 5int, 6int]
    } else {
        seq![2int, 4int, 5int, 6int]
    }
}

/// The set cells of each of the seven pictures: four of them, in order.
pub proof fn lemma_shape_cells(k: int)
    requires
        0 <= k < 7,
    ensures
        set_cells(shape(k).1, 12) == shape_cells(k),
        set_cells(shape(k).1, 12).len() == 4,
        forall|i: int, j: int| 0 <= i < j < 4 ==> set_cells(shape(k).1, 12)[i] < set_cells(shape(k).1, 12)[j],
        forall|i: int| 0 <= i < 4 ==> 0 <= #[trigger] set_cells(shape(k).1, 12)[i] < 12,
{
    lemma_shape_bits();
    reveal_with_fuel(set_cells, 13);
    if k == 0 {
        assert(set_cells(0x66u32, 12) =~= seq![5int, 6int, 9int, 10int]);
    }
    if k == 1 {
        assert(set_cells(0xf0u32, 12) =~= seq![4int, 5int, 6int, 7int]);
    }
    if k == 2 {
        assert(set_cells(0x4e0u32, 12) =~= seq![1int, 4int, 5int, 6int]);
    }
    if k == 3 {
        assert(set_cells(0x6c0u32, 12) =~= seq![1int, 2int, 4int, 5int]);
    }
    if k == 4 {
        assert(set_cells(0xc60u32, 12) =~= seq![0int, 1int, 5int, 6int]);
    }
    if k == 5 {
        assert(set_cells(0x8e0u32, 12) =~= seq![0int, 4int, 5int, 6int]);
    }
    if k == 6 {
        assert(set_cells(0x2e0u32, 12) =~= seq![2int, 4int, 5int, 6int]);
    }
}

} // verus!
