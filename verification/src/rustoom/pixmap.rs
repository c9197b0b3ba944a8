//! Pixel maps: patches, flats and font characters.
use super::lump_bytes::{bytes_as_slice, bytes_clone, bytes_empty, bytes_len, bytes_view};
use super::map_items::{i16_at, sub_slice, u16_at};
use super::utils::{buf_to_i16, buf_to_u16, buf_to_u32, le_u32};
use bytes::Bytes;
use vstd::prelude::*;

verus! {

#[derive(Clone, Copy, PartialEq, Eq, Structural)]
pub enum PixMapKind {
    Patch,
    Flat,
    PlaceHolder,
}

/// Pixel map structure.
/// Can be used for Patches, Flats or Fonts.
pub struct PixMap {
    width: u16,
    height: u16,
    kind: PixMapKind,
    data: Bytes,
}

impl PixMap {
    pub closed spec fn spec_width(&self) -> u16 {
        self.width
    }

    pub closed spec fn spec_height(&self) -> u16 {
        self.height
    }

    pub closed spec fn spec_kind(&self) -> PixMapKind {
        self.kind
    }

    /// The bytes the pixels are decoded from.
    pub closed spec fn spec_data(&self) -> Seq<u8> {
        bytes_view(self.data)
    }

    pub fn new_empty() -> (p: Self)
        ensures
            p.spec_width() == 0,
            p.spec_height() == 0,
            p.spec_kind() == PixMapKind::PlaceHolder,
            p.spec_data().len() == 0,
    {
        Self { width: 0, height: 0, kind: PixMapKind::PlaceHolder, data: bytes_empty() }
    }

    /// A placeholder of the given size (each cut to 16 bits).
    pub fn new_placeholder(width: usize, height: usize) -> (p: Self)
        ensures
            p.spec_width() == width as u16,
            p.spec_height() == height as u16,
            p.spec_kind() == PixMapKind::PlaceHolder,
            p.spec_data().len() == 0,
    {
        Self {
            width: width as u16,
            height: height as u16,
            kind: PixMapKind::PlaceHolder,
            data: bytes_empty(),
        }
    }

    /// A flat: 64 pixels wide, one byte per pixel, as many rows as the bytes
    /// hold (the count cut to 16 bits).
    pub fn from_flat(flat_bytes: Bytes) -> (p: Self)
        ensures
            p.spec_width() == 64,
            p.spec_height() == (bytes_view(flat_bytes).len() / 64) as u16,
            p.spec_kind() == PixMapKind::Flat,
            p.spec_data() == bytes_view(flat_bytes),
    {
        let len = bytes_len(&flat_bytes);
        assert(len >> 6 == len / 64) by (bit_vector);
        let height = (len >> 6) as u16;
        Self { width: 64, height, kind: PixMapKind::Flat, data: flat_bytes }
    }

    /// A patch: its width and height are the first two little-endian `u16`.
    pub fn from_patch(patch_bytes: Bytes) -> (p: Self)
        requires
            bytes_view(patch_bytes).len() >= 4,
        ensures
            p.spec_width() == u16_at(bytes_view(patch_bytes), 0),
            p.spec_height() == u16_at(bytes_view(patch_bytes), 2),
            p.spec_kind() == PixMapKind::Patch,
            p.spec_data() == bytes_view(patch_bytes),
    {
        let bytes = bytes_as_slice(&patch_bytes);
        let width = buf_to_u16(sub_slice(bytes, 0, 2));
        let height = buf_to_u16(sub_slice(bytes, 2, 4));
        Self { width, height, kind: PixMapKind::Patch, data: patch_bytes }
    }

    pub fn is_empty(&self) -> (b: bool)
        ensures
            b == (self.spec_width() == 0 || self.spec_height() == 0),
    {
        self.width == 0 || self.height == 0
    }

    pub fn width(&self) -> (w: u16)
        ensures
            w == self.spec_width(),
    {
        self.width
    }

    pub fn height(&self) -> (h: u16)
        ensures
            h == self.spec_height(),
    {
        self.height
    }

    /// The number of bytes the pixels are decoded from.
    pub fn data_len(&self) -> (n: usize)
        ensures
            n == self.spec_data().len(),
    {
        bytes_len(&self.data)
    }

    /// Whether the map is a patch, a flat or a placeholder.
    pub fn kind(&self) -> (k: PixMapKind)
        ensures
            k == self.spec_kind(),
    {
        self.kind
    }
}

/// The little-endian `u32` at `start` in `s`.
pub open spec fn u32_at(s: Seq<u8>, start: int) -> int {
    le_u32(s[start], s[start + 1], s[start + 2], s[start + 3])
}

/// The pixels of the posts of a patch column that start at offset `i`, as
/// (row, color byte): each post is its top row, its length, a spare byte,
/// its bytes and another spare byte, and `0xFF` ends the column. `None`
/// where the bytes end before the column does.
pub open spec fn posts_from(d: Seq<u8>, i: int) -> Option<Seq<(int, u8)>>
    decreases d.len() - i,
{
    if i < 0 || i >= d.len() {
        None
    } else if d[i] == 0xFF {
        Some(Seq::empty())
    } else if i + 1 >= d.len() {
        None
    } else {
        let top = d[i] as int;
        let n = d[i + 1] as int;
        if i + 4 + n >= d.len() {
            None
        } else {
            match posts_from(d, i + 4 + n) {
                Some(rest) => Some(Seq::new(n as nat, |k: int| (top + k, d[i + 3 + k])) + rest),
                None => None,
            }
        }
    }
}

/// The pixels of one post: `n` rows from row `top` down, with the colors of
/// its bytes.
pub open spec fn post_pixels(top: int, colors: Seq<u8>) -> Seq<(int, u8)> {
    Seq::new(colors.len(), |k: int| (top + k, colors[k]))
}

/// A column's pixels are those of all its posts, in order, up to the `0xFF`
/// that ends it: a column that starts with a post of `n` bytes at row `top`
/// gives that post's pixels followed by the pixels of the column that
/// starts right after the post (and fails exactly where that column fails);
/// `0xFF` gives no pixel.
pub proof fn lemma_column_is_all_its_posts(d: Seq<u8>, i: int)
    requires
        0 <= i < d.len(),
    ensures
        d[i] == 0xFF ==> posts_from(d, i) == Some(Seq::<(int, u8)>::empty()),
        d[i] != 0xFF && i + 1 < d.len() && i + 4 + d[i + 1] < d.len() ==> {
            let n = d[i + 1] as int;
            &&& (posts_from(d, i) is Some) == (posts_from(d, i + 4 + n) is Some)
            &&& posts_from(d, i + 4 + n) is Some ==> posts_from(d, i)->0 == post_pixels(
                d[i] as int,
                d.subrange(i + 3, i + 3 + n),
            ) + posts_from(d, i + 4 + n)->0
        },
{
    if d[i] != 0xFF && i + 1 < d.len() && i + 4 + d[i + 1] < d.len() {
        let n = d[i + 1] as int;
        assert(Seq::new(n as nat, |k: int| (d[i] as int + k, d[i + 3 + k])) =~= post_pixels(
            d[i] as int,
            d.subrange(i + 3, i + 3 + n),
        ));
    }
}

/// The column read from byte `a.len() + j` of `a + d` is the column read
/// from byte `j` of `d`.
proof fn lemma_posts_shift(a: Seq<u8>, d: Seq<u8>, j: int)
    requires
        0 <= j,
    ensures
        posts_from(a + d, a.len() + j) == posts_from(d, j),
    decreases d.len() - j,
{
    let ad = a + d;
    let i = a.len() + j;
    if j < d.len() && d[j] != 0xFF && j + 1 < d.len() {
        assert(ad[i] == d[j] && ad[i + 1] == d[j + 1]);
        let n = d[j + 1] as int;
        if j + 4 + n < d.len() {
            lemma_posts_shift(a, d, j + 4 + n);
            assert(Seq::new(n as nat, |k: int| (ad[i] as int + k, ad[i + 3 + k])) =~= Seq::new(
                n as nat,
                |k: int| (d[j] as int + k, d[j + 3 + k]),
            ));
        }
    } else if j < d.len() {
        assert(ad[i] == d[j]);
    }
}

/// Putting one post in front of a column's bytes puts its pixels in front of
/// the column's pixels: a post at row `top` (not `0xFF`) whose bytes are
/// `colors`, encoded as `top`, the count, a spare byte, the colors and a
/// spare byte, followed by the bytes of a column `d`.
pub proof fn lemma_post_then_column(top: u8, colors: Seq<u8>, spare1: u8, spare2: u8, d: Seq<u8>)
    requires
        top != 0xFF,
        colors.len() <= 255,
        d.len() > 0,
    ensures
        posts_from(seq![top, colors.len() as u8, spare1] + colors + seq![spare2] + d, 0) == prefixed(
            post_pixels(top as int, colors),
            posts_from(d, 0),
        ),
{
    let a = seq![top, colors.len() as u8, spare1] + colors + seq![spare2];
    let ad = a + d;
    let n = colors.len() as int;
    assert(a.len() == 4 + n);
    assert(ad[0] == top && ad[1] == colors.len() as u8);
    lemma_posts_shift(a, d, 0);
    assert(ad.subrange(3, 3 + n) =~= colors);
    lemma_column_is_all_its_posts(ad, 0);
    assert(seq![top, colors.len() as u8, spare1] + colors + seq![spare2] + d == ad);
}

/// `Some(a + b)` where `o` is `Some(b)`.
pub open spec fn prefixed<T>(a: Seq<T>, o: Option<Seq<T>>) -> Option<Seq<T>> {
    match o {
        Some(b) => Some(a + b),
        None => None,
    }
}

/// The pixels of the columns `dx..width` of a patch, as (column, row, color
/// byte); column `dx` starts at the offset that the `u32` at `8 + 4 * dx`
/// gives.
pub open spec fn columns_from(d: Seq<u8>, width: int, dx: int) -> Option<Seq<(int, int, u8)>>
    decreases width - dx,
{
    if dx >= width {
        Some(Seq::empty())
    } else if 8 + 4 * dx + 4 > d.len() {
        None
    } else {
        match posts_from(d, u32_at(d, 8 + 4 * dx)) {
            Some(p) => prefixed(p.map_values(|q: (int, u8)| (dx, q.0, q.1)), columns_from(d, width, dx + 1)),
            None => None,
        }
    }
}

/// The pixels that painting a patch of the given width draws, relative to
/// where it is painted (shifted by the offsets `x0`, `y0` that the `i16` at
/// bytes 4 and 6 give), with their color bytes; `None` where its bytes do
/// not hold all its columns.
pub open spec fn patch_pixels_of(d: Seq<u8>, width: int) -> Option<Seq<(i32, i32, u8)>> {
    if d.len() < 8 {
        None
    } else {
        match columns_from(d, width, 0) {
            Some(c) => Some(
                c.map_values(|q: (int, int, u8)| ((q.0 - i16_at(d, 4)) as i32, (q.1 - i16_at(d, 6)) as i32, q.2)),
            ),
            None => None,
        }
    }
}

/// The pixels of a flat of the given width, rows `0..h`, row by row.
pub open spec fn flat_rows(d: Seq<u8>, w: int, h: int) -> Seq<(i32, i32, u8)>
    decreases h,
{
    if h <= 0 {
        Seq::empty()
    } else {
        flat_rows(d, w, h - 1) + Seq::new(w as nat, |x: int| (x as i32, (h - 1) as i32, d[(h - 1) * w + x]))
    }
}

/// A column whose posts run out makes the whole patch fail.
proof fn lemma_column_fails(
    s: Seq<u8>,
    w: int,
    dx: int,
    acc: Seq<(int, int, u8)>,
    pacc: Seq<(int, u8)>,
    ci: int,
)
    requires
        0 <= dx < w,
        8 + 4 * dx + 4 <= s.len(),
        s.len() >= 8,
        posts_from(s, u32_at(s, 8 + 4 * dx)) == prefixed(pacc, posts_from(s, ci)),
        posts_from(s, ci) is None,
        columns_from(s, w, 0) == prefixed(acc, columns_from(s, w, dx)),
    ensures
        patch_pixels_of(s, w) is None,
{
    assert(columns_from(s, w, dx) is None);
}

impl PixMap {
    /// The pixels that painting the flat draws, relative to where it is
    /// painted: its bytes, row by row.
    pub fn flat_pixels(&self) -> (v: Vec<(i32, i32, u8)>)
        requires
            self.spec_width() * self.spec_height() <= self.spec_data().len(),
        ensures
            v@ == flat_rows(self.spec_data(), self.spec_width() as int, self.spec_height() as int),
    {
        let d = bytes_as_slice(&self.data);
        let ghost s = d@;
        let w = self.width;
        let h = self.height;
        let mut v: Vec<(i32, i32, u8)> = Vec::new();
        let mut idx: usize = 0;
        let mut dy: u16 = 0;
        while dy < h
            invariant
                s == d@,
                s == self.spec_data(),
                w == self.spec_width(),
                h == self.spec_height(),
                w * h <= s.len(),
                dy <= h,
                idx == dy * w,
                v@ == flat_rows(s, w as int, dy as int),
            decreases h - dy,
        {
            assert((dy + 1) * w <= w * h) by (nonlinear_arith)
                requires
                    dy < h,
                    w >= 0,
            ;
            let ghost before = v@;
            let mut dx: u16 = 0;
            while dx < w
                invariant
                    s == d@,
                    dy < h,
                    (dy + 1) * w <= s.len(),
                    idx == dy * w + dx,
                    dx <= w,
                    v@ == before + Seq::new(dx as nat, |x: int| (x as i32, dy as i32, s[dy * w + x])),
                decreases w - dx,
            {
                assert(dy * w + dx < (dy + 1) * w) by (nonlinear_arith)
                    requires
                        dx < w,
                ;
                let c = d[idx];
                v.push((dx as i32, dy as i32, c));
                idx = idx + 1;
                assert(v@ == before + Seq::new((dx + 1) as nat, |x: int| (x as i32, dy as i32, s[dy * w + x])));
                dx = dx + 1;
            }
            assert(idx == (dy + 1) * w) by (nonlinear_arith)
                requires
                    idx == dy * w + w,
            ;
            dy = dy + 1;
        }
        v
    }

    /// The pixels that painting the patch draws, relative to where it is
    /// painted, with their color bytes; `None` where its bytes run out.
    pub fn patch_pixels(&self) -> (r: Option<Vec<(i32, i32, u8)>>)
        ensures
            match r {
                Some(v) => patch_pixels_of(self.spec_data(), self.spec_width() as int) == Some(v@),
                None => patch_pixels_of(self.spec_data(), self.spec_width() as int) is None,
            },
    {
        let d = bytes_as_slice(&self.data);
        let len: usize = bytes_len(&self.data);
        let ghost s = d@;
        let ghost w = self.width as int;
        if len < 8 {
            return None;
        }
        let x0 = buf_to_i16(sub_slice(d, 4, 6)) as i32;
        let y0 = buf_to_i16(sub_slice(d, 6, 8)) as i32;
        let ghost shift = |q: (int, int, u8)| ((q.0 - x0) as i32, (q.1 - y0) as i32, q.2);
        let mut out: Vec<(i32, i32, u8)> = Vec::new();
        let ghost mut acc: Seq<(int, int, u8)> = Seq::empty();
        let mut dx: usize = 0;
        let width = self.width as usize;
        while dx < width
            invariant
                s == d@,
                len == s.len(),
                s == self.spec_data(),
                w == width,
                w == self.spec_width() as int,
                width <= 0xFFFF,
                dx <= width,
                len >= 8,
                x0 == i16_at(s, 4),
                y0 == i16_at(s, 6),
                shift == (|q: (int, int, u8)| ((q.0 - x0) as i32, (q.1 - y0) as i32, q.2)),
                columns_from(s, w, 0) == prefixed(acc, columns_from(s, w, dx as int)),
                out@ == acc.map_values(shift),
                forall|j: int| 0 <= j < acc.len() ==> 0 <= #[trigger] acc[j].0 < dx && 0 <= acc[j].1 < 512,
            decreases width - dx,
        {
            if len - 8 < 4 * dx || len - 8 - 4 * dx < 4 {
                assert(columns_from(s, w, dx as int) is None);
                return None;
            }
            let col_ofs: usize = 8 + 4 * dx;
            let off = buf_to_u32(sub_slice(d, col_ofs, col_ofs + 4)) as usize;
            let ghost posts_all = posts_from(s, off as int);
            let ghost mut pacc: Seq<(int, u8)> = Seq::empty();
            let mut ci: usize = off;
            loop
                invariant
                    s == d@,
                    len == s.len(),
                    dx < width,
                    width <= 0xFFFF,
                    x0 == i16_at(s, 4),
                    y0 == i16_at(s, 6),
                    shift == (|q: (int, int, u8)| ((q.0 - x0) as i32, (q.1 - y0) as i32, q.2)),
                    posts_all == posts_from(s, off as int),
                    posts_all == prefixed(pacc, posts_from(s, ci as int)),
                    s == self.spec_data(),
                    w == width,
                    w == self.spec_width() as int,
                    len >= 8,
                    8 + 4 * dx + 4 <= len,
                    off == u32_at(s, 8 + 4 * dx),
                    columns_from(s, w, 0) == prefixed(acc, columns_from(s, w, dx as int)),
                    forall|j: int| 0 <= j < acc.len() ==> 0 <= #[trigger] acc[j].0 < dx && 0 <= acc[j].1 < 512,
                    out@ == (acc + pacc.map_values(|q: (int, u8)| (dx as int, q.0, q.1))).map_values(shift),
                    forall|j: int| 0 <= j < pacc.len() ==> 0 <= #[trigger] pacc[j].0 < 512,
                    off <= ci,
                ensures
                    posts_all == Some(pacc),
                    out@ == (acc + pacc.map_values(|q: (int, u8)| (dx as int, q.0, q.1))).map_values(shift),
                    forall|j: int| 0 <= j < pacc.len() ==> 0 <= #[trigger] pacc[j].0 < 512,
                decreases len - ci,
            {
                if ci >= len {
                    proof {
                        lemma_column_fails(s, w, dx as int, acc, pacc, ci as int);
                    }
                    return None;
                }
                let top = d[ci];
                if top == 0xFF {
                    assert(posts_from(s, ci as int) == Some(Seq::<(int, u8)>::empty()));
                    assert(pacc + Seq::<(int, u8)>::empty() == pacc);
                    break;
                }
                if ci + 1 >= len {
                    proof {
                        lemma_column_fails(s, w, dx as int, acc, pacc, ci as int);
                    }
                    return None;
                }
                let n = d[ci + 1];
                if (n as usize) + 4 >= len - ci {
                    proof {
                        lemma_column_fails(s, w, dx as int, acc, pacc, ci as int);
                    }
                    return None;
                }
                let ghost here = Seq::new(n as nat, |k: int| (top as int + k, s[ci + 3 + k]));
                assert(posts_from(s, ci as int) == prefixed(here, posts_from(s, ci + 4 + n)));
                let mut k: u8 = 0;
                let ghost before = out@;
                while k < n
                    invariant
                        s == d@,
                        len == s.len(),
                        ci + 4 + n < len,
                        dx < width,
                        width <= 0xFFFF,
                        k <= n,
                        x0 == i16_at(s, 4),
                        y0 == i16_at(s, 6),
                        shift == (|q: (int, int, u8)| ((q.0 - x0) as i32, (q.1 - y0) as i32, q.2)),
                        here == Seq::new(n as nat, |j: int| (top as int + j, s[ci + 3 + j])),
                        out@ == before + here.take(k as int).map_values(|q: (int, u8)| (dx as int, q.0, q.1)).map_values(
                            shift,
                        ),
                    decreases n - k,
                {
                    let c = d[ci + 3 + k as usize];
                    let px = (dx as i32) - x0;
                    let py = (top as i32) + (k as i32) - y0;
                    out.push((px, py, c));
                    assert(here.take(k as int + 1) == here.take(k as int).push(here[k as int]));
                    k = k + 1;
                }
                assert(here.take(n as int) == here);
                proof {
                    let f = |q: (int, u8)| (dx as int, q.0, q.1);
                    assert((acc + (pacc + here).map_values(f)).map_values(shift) == (acc + pacc.map_values(f)).map_values(
                        shift,
                    ) + here.map_values(f).map_values(shift));
                    pacc = pacc + here;
                }
                ci = ci + 4 + n as usize;
            }
            proof {
                let f = |q: (int, u8)| (dx as int, q.0, q.1);
                assert(posts_all == Some(pacc));
                assert(columns_from(s, w, dx as int) == prefixed(pacc.map_values(f), columns_from(s, w, dx + 1)));
                acc = acc + pacc.map_values(f);
            }
            dx = dx + 1;
        }
        assert(columns_from(s, w, dx as int) == Some(Seq::<(int, int, u8)>::empty()));
        assert(acc + Seq::<(int, int, u8)>::empty() == acc);
        Some(out)
    }
}

impl Clone for PixMap {
    fn clone(&self) -> (p: Self)
        ensures
            p.spec_width() == self.spec_width(),
            p.spec_height() == self.spec_height(),
            p.spec_kind() == self.spec_kind(),
            p.spec_data() == self.spec_data(),
    {
        PixMap { width: self.width, height: self.height, kind: self.kind, data: bytes_clone(&self.data) }
    }
}

} // verus!
