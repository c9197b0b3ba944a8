//! Wolf3d/SOD asset loader: asset file names, map headers and the RLEW +
//! Carmack decompression of map planes.
//!
//! * [GameMaps Format](https://moddingwiki.shikadi.net/wiki/GameMaps_Format)
//! * [Carmack Compression](https://moddingwiki.shikadi.net/wiki/Carmack_compression)
//! * [id Software RLEW compression](https://moddingwiki.shikadi.net/wiki/Id_Software_RLEW_compression)
use crate::rustoom::map_items::{sub_slice, u16_at};
use crate::rustoom::utils::{buf_to_u16, buf_to_u32, le_u16};
use crate::rustoom::wad::u32_at;
use crate::text::{chars_to_string, joined, decimal, decimal_string, same_text};
use vstd::string::StringExecFns;
use vstd::prelude::*;

verus! {

/// `plane` extended by `n` words copied one by one from position `offs` on:
/// the copy may read words that it has itself just written.
pub open spec fn lz_copy(plane: Seq<u16>, offs: int, n: nat) -> Seq<u16>
    decreases n,
{
    if n == 0 {
        plane
    } else {
        lz_copy(plane.push(plane[offs]), offs + 1, (n - 1) as nat)
    }
}

/// The decompression of `chunk` from byte `idx` on, with `plane` decoded so
/// far; `None` where the data is malformed (a back reference before the start
/// of the plane or past its end, or a sequence cut short by the end of the chunk).
pub open spec fn decompress_from(chunk: Seq<u8>, idx: int, plane: Seq<u16>) -> Option<Seq<u16>>
    decreases chunk.len() - idx,
{
    if idx < 0 || idx + 1 >= chunk.len() {
        Some(plane)
    } else {
        let b1 = chunk[idx];
        let b2 = chunk[idx + 1];
        if (b2 == 0xA7 || b2 == 0xA8) && b1 == 0 {
            // Carmack escape: the byte after gives the low half of a literal word
            if idx + 2 >= chunk.len() {
                None
            } else {
                decompress_from(chunk, idx + 3, plane.push(le_u16(chunk[idx + 2], b2) as u16))
            }
        } else if b2 == 0xA7 {
            // near pointer: copy `b1` words from `chunk[idx + 2]` words back
            if idx + 2 >= chunk.len() || chunk[idx + 2] > plane.len() || (chunk[idx + 2] == 0
                && b1 > 0) {
                None
            } else {
                decompress_from(
                    chunk,
                    idx + 3,
                    lz_copy(plane, plane.len() - chunk[idx + 2], b1 as nat),
                )
            }
        } else if b2 == 0xA8 {
            // far pointer: copy `b1` words from an absolute word offset
            if idx + 4 > chunk.len() || (b1 > 0 && le_u16(chunk[idx + 2], chunk[idx + 3])
                >= plane.len()) {
                None
            } else {
                decompress_from(
                    chunk,
                    idx + 4,
                    lz_copy(plane, le_u16(chunk[idx + 2], chunk[idx + 3]), b1 as nat),
                )
            }
        } else if b1 == 0xCD && b2 == 0xAB {
            // RLEW: a count and a word to repeat
            if idx + 6 > chunk.len() {
                None
            } else {
                decompress_from(
                    chunk,
                    idx + 6,
                    plane + Seq::new(
                        le_u16(chunk[idx + 2], chunk[idx + 3]) as nat,
                        |i: int| le_u16(chunk[idx + 4], chunk[idx + 5]) as u16,
                    ),
                )
            }
        } else {
            // a plain little-endian word
            decompress_from(chunk, idx + 2, plane.push(le_u16(b1, b2) as u16))
        }
    }
}

/// A copy of `n` words from position `offs` appends `n` words to the plane,
/// keeps the plane before them, and each appended word is the word
/// `plane.len() - offs` positions before it (so words it has just written
/// are copied again where the source runs into them).
pub proof fn lemma_copy_repeats_earlier_words(plane: Seq<u16>, offs: int, n: nat)
    requires
        0 <= offs,
        n > 0 ==> offs < plane.len(),
    ensures
        lz_copy(plane, offs, n).len() == plane.len() + n,
        lz_copy(plane, offs, n).subrange(0, plane.len() as int) == plane,
        forall|k: int| 0 <= k < n ==> #[trigger] lz_copy(plane, offs, n)[plane.len() + k] == lz_copy(plane, offs, n)[offs + k],
    decreases n,
{
    if n > 0 {
        let p2 = plane.push(plane[offs]);
        lemma_copy_repeats_earlier_words(p2, offs + 1, (n - 1) as nat);
        let r = lz_copy(plane, offs, n);
        assert(r == lz_copy(p2, offs + 1, (n - 1) as nat));
        assert(r.subrange(0, plane.len() as int) == plane) by {
            assert(r.subrange(0, p2.len() as int) == p2);
            assert forall|j: int| 0 <= j < plane.len() implies r[j] == plane[j] by {
                assert(r.subrange(0, p2.len() as int)[j] == p2[j]);
            }
        }
        assert forall|k: int| 0 <= k < n implies #[trigger] r[plane.len() + k] == r[offs + k] by {
            if k == 0 {
                assert(r.subrange(0, p2.len() as int)[plane.len() as int] == p2[plane.len() as int]);
                assert(r.subrange(0, p2.len() as int)[offs] == p2[offs]);
            } else {
                assert(r[p2.len() + (k - 1)] == r[offs + 1 + (k - 1)]);
            }
        }
    }
}

/// A copy whose source lies within the plane appends exactly those words.
pub proof fn lemma_copy_within_plane(plane: Seq<u16>, offs: int, n: nat)
    requires
        0 <= offs,
        offs + n <= plane.len(),
    ensures
        lz_copy(plane, offs, n) == plane + plane.subrange(offs, offs + n),
{
    lemma_copy_repeats_earlier_words(plane, offs, n);
    let r = lz_copy(plane, offs, n);
    assert forall|j: int| 0 <= j < r.len() implies r[j] == (plane + plane.subrange(offs, offs + n))[j] by {
        if j < plane.len() {
            assert(r.subrange(0, plane.len() as int)[j] == plane[j]);
        } else {
            let k = j - plane.len();
            assert(r[plane.len() + k] == r[offs + k]);
            assert(r.subrange(0, plane.len() as int)[offs + k] == plane[offs + k]);
        }
    }
    assert(r =~= plane + plane.subrange(offs, offs + n));
}

/// One step of the decompression, for each kind of data at byte `idx`, with
/// `plane` decoded so far (words are little-endian: low byte first):
/// a far pointer `(c, 0xA8, lo, hi)` appends the `c` words that start at
/// word `lo + 256 * hi` of the plane; a near pointer `(c, 0xA7, back)`
/// appends the `c` words that start `back` words before the end; a run
/// `(0xCD, 0xAB, count, value)` appends `count` times the value; an escape
/// `(0, 0xA7 or 0xA8, lo)` appends the word `lo + 256 * 0xA7` (or `0xA8`);
/// any other two bytes append their word.
pub proof fn lemma_decompression_steps(chunk: Seq<u8>, idx: int, plane: Seq<u16>)
    requires
        0 <= idx,
        idx + 1 < chunk.len(),
    ensures
        ({
            let c = chunk[idx] as int;
            let o = chunk[idx + 2] as int + 256 * (chunk[idx + 3] as int);
            chunk[idx + 1] == 0xA8 && c > 0 && idx + 4 <= chunk.len() && o + c <= plane.len()
                ==> decompress_from(chunk, idx, plane) == decompress_from(
                chunk,
                idx + 4,
                plane + plane.subrange(o, o + c),
            )
        }),
        ({
            let c = chunk[idx] as int;
            let back = chunk[idx + 2] as int;
            chunk[idx + 1] == 0xA7 && c > 0 && idx + 3 <= chunk.len() && c <= back <= plane.len()
                ==> decompress_from(chunk, idx, plane) == decompress_from(
                chunk,
                idx + 3,
                plane + plane.subrange(plane.len() - back, plane.len() - back + c),
            )
        }),
        chunk[idx] == 0xCD && chunk[idx + 1] == 0xAB && idx + 6 <= chunk.len() ==> decompress_from(chunk, idx, plane)
            == decompress_from(
            chunk,
            idx + 6,
            plane + Seq::new(
                (chunk[idx + 2] as int + 256 * (chunk[idx + 3] as int)) as nat,
                |i: int| (chunk[idx + 4] as int + 256 * (chunk[idx + 5] as int)) as u16,
            ),
        ),
        chunk[idx] == 0 && (chunk[idx + 1] == 0xA7 || chunk[idx + 1] == 0xA8) && idx + 3 <= chunk.len()
            ==> decompress_from(chunk, idx, plane) == decompress_from(
            chunk,
            idx + 3,
            plane.push((chunk[idx + 2] as int + 256 * (chunk[idx + 1] as int)) as u16),
        ),
        chunk[idx + 1] != 0xA7 && chunk[idx + 1] != 0xA8 && !(chunk[idx] == 0xCD && chunk[idx + 1] == 0xAB)
            ==> decompress_from(chunk, idx, plane) == decompress_from(
            chunk,
            idx + 2,
            plane.push((chunk[idx] as int + 256 * (chunk[idx + 1] as int)) as u16),
        ),
{
    let c = chunk[idx] as int;
    if chunk[idx + 1] == 0xA8 && c > 0 && idx + 4 <= chunk.len() {
        let o = chunk[idx + 2] as int + 256 * (chunk[idx + 3] as int);
        if o + c <= plane.len() {
            lemma_copy_within_plane(plane, o, c as nat);
        }
    }
    if chunk[idx + 1] == 0xA7 && c > 0 && idx + 3 <= chunk.len() {
        let back = chunk[idx + 2] as int;
        if c <= back <= plane.len() {
            lemma_copy_within_plane(plane, plane.len() - back, c as nat);
        }
    }
}

/// The decompressed map plane held in `chunk`, or `None` if it is malformed.
pub open spec fn decompressed_plane(chunk: Seq<u8>) -> Option<Seq<u16>> {
    decompress_from(chunk, 0, Seq::empty())
}

/// Copies `n` words of `plane`, from position `offs` on, to its end, one by one.
fn copy_words(plane: &mut Vec<u16>, offs: usize, n: u8)
    requires
        n == 0 || offs < old(plane)@.len(),
    ensures
        final(plane)@ == lz_copy(old(plane)@, offs as int, n as nat),
{
    let ghost target = lz_copy(old(plane)@, offs as int, n as nat);
    let mut i: u8 = 0;
    while i < n
        invariant
            i <= n,
            i < n ==> offs + i < plane.len(),
            lz_copy(plane@, offs + i, (n - i) as nat) == target,
        decreases n - i,
    {
        let w = plane[offs + i as usize];
        plane.push(w);
        i = i + 1;
    }
}

/// Use RLE + Carmack decompression, to extract the map plane.
pub fn decompress_map_plane(chunk: &[u8]) -> (plane: Vec<u16>)
    requires
        chunk@.len() + 8 <= usize::MAX,
        decompressed_plane(chunk@) is Some,
    ensures
        plane@ == decompressed_plane(chunk@)->0,
{
    let len = chunk.len();
    let mut plane: Vec<u16> = Vec::with_capacity(1024);
    let mut idx: usize = 0;
    while (idx + 1) < len
        invariant
            len == chunk@.len(),
            len + 8 <= usize::MAX,
            idx <= len + 6,
            decompress_from(chunk@, idx as int, plane@) == decompressed_plane(chunk@),
            decompressed_plane(chunk@) is Some,
        decreases len - idx,
    {
        let b1 = chunk[idx];
        let b2 = chunk[idx + 1];
        if (b2 == 0xA7 || b2 == 0xA8) && b1 == 0 {
            // Carmack-style escape sequence
            let lo = chunk[idx + 2];
            let w = (lo as u16) | ((b2 as u16) << 8);
            assert(w == le_u16(lo, b2) as u16) by (bit_vector)
                requires
                    w == (lo as u16) | ((b2 as u16) << 8u16),
            ;
            plane.push(w);
            idx += 3;
        } else if b2 == 0xA7 {
            // Carmack-style near pointer
            let offs = plane.len() - (chunk[idx + 2] as usize);
            idx += 3;
            copy_words(&mut plane, offs, b1);
        } else if b2 == 0xA8 {
            // Carmack-style far pointer
            let offs = buf_to_u16(slice_from(chunk, idx + 2)) as usize;
            idx += 4;
            copy_words(&mut plane, offs, b1);
        } else if b1 == 0xCD && b2 == 0xAB {
            // RLE encoding
            let cnt = buf_to_u16(slice_from(chunk, idx + 2));
            let val = buf_to_u16(slice_from(chunk, idx + 4));
            let ghost before = plane@;
            let mut k: u16 = 0;
            while k < cnt
                invariant
                    k <= cnt,
                    plane@ == before + Seq::new(k as nat, |i: int| val),
                decreases cnt - k,
            {
                plane.push(val);
                k = k + 1;
                assert(plane@ == before + Seq::new(k as nat, |i: int| val));
            }
            idx += 6;
        } else {
            // normal word
            let w = (b1 as u16) | ((b2 as u16) << 8);
            assert(w == le_u16(b1, b2) as u16) by (bit_vector)
                requires
                    w == (b1 as u16) | ((b2 as u16) << 8u16),
            ;
            plane.push(w);
            idx += 2;
        }
    }
    plane
}

/// Whether decompressing `chunk` from byte `idx` on, with `n` words
/// decoded so far, meets only well-formed data: the checks of
/// [`decompress_from`] depend on the number of words decoded alone.
pub open spec fn decodes_from(chunk: Seq<u8>, idx: int, n: int) -> bool
    decreases chunk.len() - idx,
{
    if idx < 0 || idx + 1 >= chunk.len() {
        true
    } else {
        let b1 = chunk[idx];
        let b2 = chunk[idx + 1];
        if (b2 == 0xA7 || b2 == 0xA8) && b1 == 0 {
            if idx + 2 >= chunk.len() {
                false
            } else {
                decodes_from(chunk, idx + 3, n + 1)
            }
        } else if b2 == 0xA7 {
            if idx + 2 >= chunk.len() || chunk[idx + 2] > n || (chunk[idx + 2] == 0 && b1 > 0) {
                false
            } else {
                decodes_from(chunk, idx + 3, n + b1)
            }
        } else if b2 == 0xA8 {
            if idx + 4 > chunk.len() || (b1 > 0 && le_u16(chunk[idx + 2], chunk[idx + 3]) >= n) {
                false
            } else {
                decodes_from(chunk, idx + 4, n + b1)
            }
        } else if b1 == 0xCD && b2 == 0xAB {
            if idx + 6 > chunk.len() {
                false
            } else {
                decodes_from(chunk, idx + 6, n + le_u16(chunk[idx + 2], chunk[idx + 3]))
            }
        } else {
            decodes_from(chunk, idx + 2, n + 1)
        }
    }
}

proof fn lemma_lz_copy_len(plane: Seq<u16>, offs: int, n: nat)
    ensures
        lz_copy(plane, offs, n).len() == plane.len() + n,
    decreases n,
{
    if n > 0 {
        lemma_lz_copy_len(plane.push(plane[offs]), offs + 1, (n - 1) as nat);
    }
}

/// Decompression succeeds exactly when it meets only well-formed data.
proof fn lemma_decodes(chunk: Seq<u8>, idx: int, plane: Seq<u16>)
    ensures
        (decompress_from(chunk, idx, plane) is Some) == decodes_from(chunk, idx, plane.len() as int),
    decreases chunk.len() - idx,
{
    if idx < 0 || idx + 1 >= chunk.len() {
    } else {
        let b1 = chunk[idx];
        let b2 = chunk[idx + 1];
        if (b2 == 0xA7 || b2 == 0xA8) && b1 == 0 {
            if idx + 2 < chunk.len() {
                lemma_decodes(chunk, idx + 3, plane.push(le_u16(chunk[idx + 2], b2) as u16));
            }
        } else if b2 == 0xA7 {
            if !(idx + 2 >= chunk.len() || chunk[idx + 2] > plane.len() || (chunk[idx + 2] == 0 && b1 > 0)) {
                let next = lz_copy(plane, plane.len() - chunk[idx + 2], b1 as nat);
                lemma_lz_copy_len(plane, plane.len() - chunk[idx + 2], b1 as nat);
                lemma_decodes(chunk, idx + 3, next);
            }
        } else if b2 == 0xA8 {
            if !(idx + 4 > chunk.len() || (b1 > 0 && le_u16(chunk[idx + 2], chunk[idx + 3]) >= plane.len())) {
                let next = lz_copy(plane, le_u16(chunk[idx + 2], chunk[idx + 3]), b1 as nat);
                lemma_lz_copy_len(plane, le_u16(chunk[idx + 2], chunk[idx + 3]), b1 as nat);
                lemma_decodes(chunk, idx + 4, next);
            }
        } else if b1 == 0xCD && b2 == 0xAB {
            if idx + 6 <= chunk.len() {
                let next = plane + Seq::new(
                    le_u16(chunk[idx + 2], chunk[idx + 3]) as nat,
                    |i: int| le_u16(chunk[idx + 4], chunk[idx + 5]) as u16,
                );
                lemma_decodes(chunk, idx + 6, next);
            }
        } else {
            lemma_decodes(chunk, idx + 2, plane.push(le_u16(b1, b2) as u16));
        }
    }
}

/// Whether a compressed map plane is well formed, so that
/// [`decompress_map_plane`] can decode it.
pub fn plane_decodes(chunk: &[u8]) -> (b: bool)
    ensures
        b == (decompressed_plane(chunk@) is Some),
{
    proof {
        lemma_decodes(chunk@, 0, Seq::empty());
    }
    let len = chunk.len();
    let mut idx: usize = 0;
    let mut n: u128 = 0;
    while idx < len && len - idx > 1
        invariant
            len == chunk@.len(),
            idx <= len,
            n <= idx * 65535,
            decodes_from(chunk@, idx as int, n as int) == decodes_from(chunk@, 0, 0),
            (decompressed_plane(chunk@) is Some) == decodes_from(chunk@, 0, 0),
        decreases len - idx,
    {
        let b1 = chunk[idx];
        let b2 = chunk[idx + 1];
        if (b2 == 0xA7 || b2 == 0xA8) && b1 == 0 {
            if len - idx <= 2 {
                return false;
            }
            n = n + 1;
            idx = idx + 3;
        } else if b2 == 0xA7 {
            if len - idx <= 2 {
                return false;
            }
            let back = chunk[idx + 2];
            if (back as u128) > n || (back == 0 && b1 > 0) {
                return false;
            }
            n = n + (b1 as u128);
            idx = idx + 3;
        } else if b2 == 0xA8 {
            if len - idx < 4 {
                return false;
            }
            let far = buf_to_u16(sub_slice(chunk, idx + 2, idx + 4));
            if b1 > 0 && (far as u128) >= n {
                return false;
            }
            n = n + (b1 as u128);
            idx = idx + 4;
        } else if b1 == 0xCD && b2 == 0xAB {
            if len - idx < 6 {
                return false;
            }
            let cnt = buf_to_u16(sub_slice(chunk, idx + 2, idx + 4));
            n = n + (cnt as u128);
            idx = idx + 6;
        } else {
            n = n + 1;
            idx = idx + 2;
        }
    }
    true
}

/// The bytes of `s` from position `start` on (`&s[start..]`).
pub(crate) fn slice_from(s: &[u8], start: usize) -> (r: &[u8])
    requires
        start <= s@.len(),
    ensures
        r@ == s@.subrange(start as int, s@.len() as int),
{
    vstd::slice::slice_subrange(s, start, s.len())
}


/// The little-endian `i32` at `start` in `s`.
pub open spec fn i32_at(s: Seq<u8>, start: int) -> int {
    let u = u32_at(s, start);
    if u >= 0x8000_0000 {
        u - 0x1_0000_0000
    } else {
        u
    }
}

/// The little-endian `i32` at the start of `buf`.
pub fn buf_to_i32(buf: &[u8]) -> (r: i32)
    requires
        buf@.len() >= 4,
    ensures
        r == i32_at(buf@, 0),
{
    let u = buf_to_u32(buf);
    if u >= 0x8000_0000 {
        (u as i64 - 0x1_0000_0000) as i32
    } else {
        u as i32
    }
}

/// The text of the ASCII bytes of `s` from `start` on: at most `max` bytes,
/// ending at the first null byte or at the end of `s`.
pub open spec fn ascii_text(s: Seq<u8>, start: int, max: int) -> Seq<char>
    decreases max,
{
    if max <= 0 || start < 0 || start >= s.len() || s[start] == 0 {
        Seq::empty()
    } else {
        seq![s[start] as char] + ascii_text(s, start + 1, max - 1)
    }
}

/// The text of at most `max` ASCII bytes at the start of `buf`, up to the
/// first null byte.
pub fn buf_to_ascii(buf: &[u8], max: usize) -> (s: String)
    ensures
        s@ == ascii_text(buf@, 0, max as int),
{
    let mut chars: Vec<char> = Vec::new();
    let mut i: usize = 0;
    while i < max && i < buf.len() && buf[i] != 0
        invariant
            i <= max,
            i <= buf@.len(),
            forall|j: int| 0 <= j < i ==> buf@[j] != 0,
            chars@ + ascii_text(buf@, i as int, max - i) == ascii_text(buf@, 0, max as int),
        decreases max - i,
    {
        let c = buf[i] as char;
        proof {
            assert(ascii_text(buf@, i as int, max - i) == seq![c] + ascii_text(buf@, i + 1, max - i - 1));
            assert(chars@.push(c) + ascii_text(buf@, i + 1, max - i - 1) == chars@ + (seq![c] + ascii_text(buf@, i + 1, max - i - 1)));
        }
        chars.push(c);
        i = i + 1;
    }
    proof {
        assert(ascii_text(buf@, i as int, max - i) == Seq::<char>::empty());
        assert(chars@ + Seq::<char>::empty() == chars@);
    }
    chars_to_string(chars)
}

/// A map as the GAMEMAPS file holds it: its name, its size and its three
/// decompressed planes (empty where a plane is missing).
pub struct MapData {
    _name: String,
    _width: u16,
    _height: u16,
    _plane0: Vec<u16>,
    _plane1: Vec<u16>,
    _plane2: Vec<u16>,
}

impl MapData {
    pub closed spec fn spec_name(&self) -> Seq<char> {
        self._name@
    }

    pub closed spec fn spec_size(&self) -> (u16, u16) {
        (self._width, self._height)
    }

    pub closed spec fn spec_planes(&self) -> (Seq<u16>, Seq<u16>, Seq<u16>) {
        (self._plane0@, self._plane1@, self._plane2@)
    }

    /// The wall tile at `(x, y)`: the word of the first plane there, or 0.
    pub open spec fn tile_at(&self, x: int, y: int) -> u16 {
        plane_word(self.spec_planes().0, self.spec_size().0 as int, self.spec_size().1 as int, x, y)
    }

    /// The thing at `(x, y)`: the word of the second plane there, or 0.
    pub open spec fn thing_at(&self, x: int, y: int) -> u16 {
        plane_word(self.spec_planes().1, self.spec_size().0 as int, self.spec_size().1 as int, x, y)
    }

    pub fn width(&self) -> (w: u16)
        ensures
            w == self.spec_size().0,
    {
        self._width
    }

    pub fn height(&self) -> (h: u16)
        ensures
            h == self.spec_size().1,
    {
        self._height
    }

    /// The wall tile at `(x, y)`, or 0 outside the map.
    pub fn tile(&self, x: i32, y: i32) -> (t: u16)
        ensures
            t == self.tile_at(x as int, y as int),
    {
        plane_word_at(&self._plane0, self._width, self._height, x, y)
    }

    /// The thing at `(x, y)`, or 0 outside the map.
    pub fn thing(&self, x: i32, y: i32) -> (t: u16)
        ensures
            t == self.thing_at(x as int, y as int),
    {
        plane_word_at(&self._plane1, self._width, self._height, x, y)
    }
}

/// The word at `(x, y)` of a row-by-row plane of a `w` x `h` map: 0 outside
/// the map, or past the end of a plane that is shorter.
pub open spec fn plane_word(p: Seq<u16>, w: int, h: int, x: int, y: int) -> u16 {
    if 0 <= x < w && 0 <= y < h && y * w + x < p.len() {
        p[y * w + x]
    } else {
        0
    }
}

fn plane_word_at(p: &Vec<u16>, w: u16, h: u16, x: i32, y: i32) -> (r: u16)
    ensures
        r == plane_word(p@, w as int, h as int, x as int, y as int),
{
    if x >= 0 && y >= 0 && x < w as i32 && y < h as i32 {
        assert(0 <= (y as int) * (w as int) + x <= 65535 * 65535 + 65535) by (nonlinear_arith)
            requires
                0 <= y < 65536,
                0 <= w < 65536,
                0 <= x < 65536,
        ;
        let idx: u64 = (y as u64) * (w as u64) + (x as u64);
        if idx < p.len() as u64 {
            p[idx as usize]
        } else {
            0
        }
    } else {
        0
    }
}

/// Where plane `i` of the map whose header starts at `h` starts (present when positive).
pub open spec fn plane_offset(g: Seq<u8>, h: int, i: int) -> int {
    i32_at(g, h + 4 * i)
}

/// The compressed length of plane `i`.
pub open spec fn plane_len(g: Seq<u8>, h: int, i: int) -> int {
    u16_at(g, h + 12 + 2 * i)
}

/// Plane `i` is missing, or lies within the file.
pub open spec fn plane_fits(g: Seq<u8>, h: int, i: int) -> bool {
    plane_offset(g, h, i) > 0 ==> plane_offset(g, h, i) + plane_len(g, h, i) <= g.len()
}

/// The compressed bytes of plane `i`.
pub open spec fn plane_chunk(g: Seq<u8>, h: int, i: int) -> Seq<u8> {
    g.subrange(plane_offset(g, h, i), plane_offset(g, h, i) + plane_len(g, h, i))
}

/// The words of plane `i` (none for a missing plane).
pub open spec fn plane_words(g: Seq<u8>, h: int, i: int) -> Seq<u16> {
    if plane_offset(g, h, i) > 0 {
        decompressed_plane(plane_chunk(g, h, i))->0
    } else {
        Seq::empty()
    }
}

/// Every plane that loading reaches, present and within the file, is well formed.
pub open spec fn planes_decodable(g: Seq<u8>, h: int) -> bool {
    forall|i: int|
        0 <= i < 3 && plane_offset(g, h, i) > 0 && plane_fits(g, h, i) && (forall|j: int|
            0 <= j < i ==> #[trigger] plane_fits(g, h, j)) ==> (#[trigger] decompressed_plane(
            plane_chunk(g, h, i),
        )) is Some
}

/// The map whose header starts at `h` can be loaded: the header, and each
/// present plane, lie within the file.
pub open spec fn map_loads(g: Seq<u8>, h: int) -> bool {
    g.len() > h + 26 && plane_fits(g, h, 0) && plane_fits(g, h, 1) && plane_fits(g, h, 2)
}

/// Why the map whose header starts at `h` cannot be loaded.
pub open spec fn map_load_error(g: Seq<u8>, h: int) -> Seq<char> {
    if g.len() <= h + 26 {
        "Invalid map header index: "@ + decimal(h as nat)
    } else {
        let i = if !plane_fits(g, h, 0) {
            0nat
        } else if !plane_fits(g, h, 1) {
            1nat
        } else {
            2nat
        };
        "Invalid map plane "@ + decimal(i) + " for "@ + map_name(g, h)
    }
}

/// The internal name of the map whose header starts at `h`.
pub open spec fn map_name(g: Seq<u8>, h: int) -> Seq<char> {
    ascii_text(g, h + 22, 16)
}

/// Loads the map whose header starts at `hdridx` in the GAMEMAPS bytes:
/// refused where the header, or one of its present planes, does not lie
/// within the file.
pub fn load_one_map(hdridx: usize, gamemaps: &[u8]) -> (r: Result<MapData, String>)
    requires
        gamemaps@.len() + 8 <= usize::MAX,
        gamemaps@.len() > hdridx + 26 ==> planes_decodable(gamemaps@, hdridx as int),
    ensures
        ({
            let g = gamemaps@;
            let h = hdridx as int;
            match r {
                Ok(m) => map_loads(g, h) && m.spec_name() == map_name(g, h) && m.spec_size() == (u16_at(g, h + 18) as u16, u16_at(g, h + 20) as u16)
                    && m.spec_planes() == (plane_words(g, h, 0), plane_words(g, h, 1), plane_words(g, h, 2)),
                Err(e) => !map_loads(g, h) && e@ == map_load_error(g, h),
            }
        }),
{
    let ghost g = gamemaps@;
    let len = gamemaps.len();
    if len <= 26 || hdridx >= len - 26 {
        return Err(joined(String::from_str("Invalid map header index: "), decimal_string(hdridx as u64).as_str()));
    }
    let width = buf_to_u16(sub_slice(gamemaps, hdridx + 18, hdridx + 20));
    let height = buf_to_u16(sub_slice(gamemaps, hdridx + 20, hdridx + 22));
    let name = buf_to_ascii(slice_from(gamemaps, hdridx + 22), 16);
    proof {
        lemma_ascii_text_shift(g, hdridx as int + 22, 16);
    }
    let mut planes: Vec<Vec<u16>> = Vec::new();
    let mut i: usize = 0;
    while i < 3
        invariant
            g == gamemaps@,
            len == g.len(),
            len + 8 <= usize::MAX,
            len > hdridx + 26,
            planes_decodable(g, hdridx as int),
            name@ == map_name(g, hdridx as int),
            i <= 3,
            planes@.len() == i,
            forall|j: int| 0 <= j < i ==> #[trigger] plane_fits(g, hdridx as int, j),
            forall|j: int| 0 <= j < i ==> (#[trigger] planes@[j])@ == plane_words(g, hdridx as int, j),
        decreases 3 - i,
    {
        let ofs = buf_to_i32(sub_slice(gamemaps, hdridx + 4 * i, hdridx + 4 * i + 4));
        let plen = buf_to_u16(sub_slice(gamemaps, hdridx + 12 + 2 * i, hdridx + 14 + 2 * i)) as usize;
        if ofs <= 0 {
            planes.push(Vec::new());
        } else {
            let ofs = ofs as usize;
            if len < ofs + plen {
                let msg = joined(String::from_str("Invalid map plane "), decimal_string(i as u64).as_str());
                let msg = joined(msg, " for ");
                let e = joined(msg, name.as_str());
                assert(!plane_fits(g, hdridx as int, i as int));
                return Err(e);
            }
            let chunk = sub_slice(gamemaps, ofs, ofs + plen);
            assert(plane_fits(g, hdridx as int, i as int));
            assert(decompressed_plane(plane_chunk(g, hdridx as int, i as int)) is Some);
            planes.push(decompress_map_plane(chunk));
        }
        assert(planes@[i as int]@ == plane_words(g, hdridx as int, i as int));
        i = i + 1;
    }
    let plane2 = planes.pop().unwrap();
    let plane1 = planes.pop().unwrap();
    let plane0 = planes.pop().unwrap();
    Ok(MapData { _name: name, _width: width, _height: height, _plane0: plane0, _plane1: plane1, _plane2: plane2 })
}

/// The text read from `s` at `start` is the text read from its suffix there.
proof fn lemma_ascii_text_shift(s: Seq<u8>, start: int, max: int)
    requires
        0 <= start <= s.len(),
    ensures
        ascii_text(s.subrange(start, s.len() as int), 0, max) == ascii_text(s, start, max),
    decreases max,
{
    let t = s.subrange(start, s.len() as int);
    if max > 0 && start < s.len() && s[start] != 0 {
        lemma_ascii_text_shift_inner(s, start, 1, max - 1);
    }
}

proof fn lemma_ascii_text_shift_inner(s: Seq<u8>, start: int, k: int, max: int)
    requires
        0 <= start,
        start + k <= s.len(),
        k >= 1,
    ensures
        ascii_text(s.subrange(start, s.len() as int), k, max) == ascii_text(s, start + k, max),
    decreases max,
{
    let t = s.subrange(start, s.len() as int);
    if max > 0 && start + k < s.len() && s[start + k] != 0 {
        lemma_ascii_text_shift_inner(s, start, k + 1, max - 1);
    }
}


/// The map header positions listed in MAPHEAD from byte `idx` on: the
/// positive `i32` numbers up to the first that is not; `None` where the
/// list runs past the end of the bytes.
pub open spec fn entries_from(m: Seq<u8>, idx: int) -> Option<Seq<int>>
    decreases m.len() - idx,
{
    if idx < 0 || idx + 4 > m.len() {
        None
    } else if i32_at(m, idx) <= 0 {
        Some(Seq::empty())
    } else {
        match entries_from(m, idx + 4) {
            Some(rest) => Some(seq![i32_at(m, idx)] + rest),
            None => None,
        }
    }
}

/// The map header positions listed in MAPHEAD.
pub open spec fn map_entries(m: Seq<u8>) -> Option<Seq<int>> {
    entries_from(m, 2)
}

/// The magic number MAPHEAD starts with.
pub const MAPHEAD_MAGIC: u16 = 0xABCD;

/// Every map listed in MAPHEAD that loading reaches has well-formed planes.
pub open spec fn maps_decodable(m: Seq<u8>, g: Seq<u8>) -> bool {
    forall|k: int|
        0 <= k < map_entries(m)->0.len() && g.len() > map_entries(m)->0[k] + 26 ==> #[trigger] planes_decodable(
            g,
            map_entries(m)->0[k],
        )
}

/// Loads all the maps listed in MAPHEAD from the GAMEMAPS bytes, in order:
/// refused where MAPHEAD does not start with its magic number, or on the
/// first map that cannot be loaded.
pub fn load_maps_from(maphead: &[u8], gamemaps: &[u8]) -> (r: Result<Vec<MapData>, String>)
    requires
        maphead@.len() >= 2,
        map_entries(maphead@) is Some,
        gamemaps@.len() + 8 <= usize::MAX,
        maps_decodable(maphead@, gamemaps@),
    ensures
        ({
            let es = map_entries(maphead@)->0;
            let g = gamemaps@;
            match r {
                Ok(maps) => u16_at(maphead@, 0) == 0xABCD && maps@.len() == es.len() && forall|k: int|
                    0 <= k < es.len() ==> map_loads(g, #[trigger] es[k]) && maps@[k].spec_name()
                        == map_name(g, es[k]) && maps@[k].spec_size() == (u16_at(g, es[k] + 18) as u16, u16_at(g, es[k] + 20) as u16)
                        && maps@[k].spec_planes() == (plane_words(g, es[k], 0), plane_words(g, es[k], 1), plane_words(g, es[k], 2)),
                Err(e) => if u16_at(maphead@, 0) != 0xABCD {
                    e@ == "Unexpected magic number in "@
                } else {
                    exists|k: int|
                        0 <= k < es.len() && !map_loads(g, es[k]) && (forall|j: int| 0 <= j < k ==> #[trigger] map_loads(g, es[j]))
                            && e@ == map_load_error(g, es[k])
                },
            }
        }),
{
    let ghost m = maphead@;
    let ghost g = gamemaps@;
    let ghost es = map_entries(m)->0;
    if buf_to_u16(sub_slice(maphead, 0, 2)) != MAPHEAD_MAGIC {
        return Err(String::from_str("Unexpected magic number in "));
    }
    assert(u16_at(m, 0) == 0xABCD);
    let mlen = maphead.len();
    let mut maps: Vec<MapData> = Vec::new();
    let mut idx: usize = 2;
    loop
        invariant_except_break
            m == maphead@,
            u16_at(m, 0) == 0xABCD,
            mlen == m.len(),
            g == gamemaps@,
            gamemaps@.len() + 8 <= usize::MAX,
            maps_decodable(m, g),
            es == map_entries(m)->0,
            idx >= 2,
            (idx - 2) % 4 == 0,
            maps@.len() == (idx - 2) / 4,
            maps@.len() <= es.len(),
            entries_from(m, idx as int) is Some,
            es == es.take(maps@.len() as int) + entries_from(m, idx as int)->0,
            forall|k: int|
                0 <= k < maps@.len() ==> map_loads(g, #[trigger] es[k]) && maps@[k].spec_name()
                    == map_name(g, es[k]) && maps@[k].spec_size() == (u16_at(g, es[k] + 18) as u16, u16_at(g, es[k] + 20) as u16)
                    && maps@[k].spec_planes() == (plane_words(g, es[k], 0), plane_words(g, es[k], 1), plane_words(g, es[k], 2)),
        ensures
            maps@.len() == es.len(),
            forall|k: int|
                0 <= k < maps@.len() ==> map_loads(g, #[trigger] es[k]) && maps@[k].spec_name()
                    == map_name(g, es[k]) && maps@[k].spec_size() == (u16_at(g, es[k] + 18) as u16, u16_at(g, es[k] + 20) as u16)
                    && maps@[k].spec_planes() == (plane_words(g, es[k], 0), plane_words(g, es[k], 1), plane_words(g, es[k], 2)),
        decreases mlen - idx,
    {
        let mapidx = buf_to_i32(sub_slice(maphead, idx, idx + 4));
        if mapidx <= 0 {
            assert(entries_from(m, idx as int)->0 == Seq::<int>::empty());
            assert(es == es.take(maps@.len() as int));
            break;
        }
        let k = maps.len();
        let ghost rest = entries_from(m, idx as int + 4)->0;
        assert(entries_from(m, idx as int)->0 == seq![mapidx as int] + rest);
        assert(es[k as int] == mapidx) by {
            assert((es.take(k as int) + (seq![mapidx as int] + rest))[k as int] == mapidx);
        }
        assert(g.len() > es[k as int] + 26 ==> planes_decodable(g, es[k as int]));
        match load_one_map(mapidx as usize, gamemaps) {
            Ok(map) => {
                maps.push(map);
            },
            Err(e) => {
                assert(!map_loads(g, es[k as int]) && e@ == map_load_error(g, es[k as int]));
                assert(forall|j: int| 0 <= j < k ==> #[trigger] map_loads(g, es[j]));
                assert(u16_at(m, 0) == 0xABCD);
                assert(k < es.len());
                assert(0 <= k < es.len() && !map_loads(g, es[k as int]) && (forall|j: int| 0 <= j < k ==> #[trigger] map_loads(g, es[j]))
                    && e@ == map_load_error(g, es[k as int]));
                return Err(e);
            },
        }
        proof {
            assert(es.take(k as int + 1) + rest == es) by {
                assert(es.take(k as int + 1) == es.take(k as int).push(mapidx as int));
                assert(es.take(k as int) + (seq![mapidx as int] + rest) == es.take(k as int).push(mapidx as int) + rest);
            }
        }
        idx = idx + 4;
    }
    Ok(maps)
}

/// MAPHEAD starts with its magic number and each map it lists can be loaded.
pub open spec fn all_maps_load(m: Seq<u8>, g: Seq<u8>) -> bool {
    &&& u16_at(m, 0) == 0xABCD
    &&& forall|k: int| 0 <= k < map_entries(m)->0.len() ==> #[trigger] map_loads(g, map_entries(m)->0[k])
}

/// The asset files a game needs, by their names without extension.
pub open spec fn asset_files() -> Seq<Seq<char>> {
    seq!["MAPHEAD"@, "GAMEMAPS"@, "VGADICT"@, "VGAHEAD"@, "VGAGRAPH"@, "VSWAP"@]
}

/// The file extensions of the supported games, in the order they are tried.
pub open spec fn game_extensions() -> Seq<Seq<char>> {
    seq!["WL1"@, "WL3"@, "WL6"@, "SDM"@, "SOD"@]
}

/// The name of an asset file: its base name, a dot, and the game's extension.
pub open spec fn file_name(base: Seq<char>, ext: Seq<char>) -> Seq<char> {
    base + "."@ + ext
}

/// `existing` holds the name.
pub open spec fn holds_name(existing: Seq<String>, name: Seq<char>) -> bool {
    exists|i: int| 0 <= i < existing.len() && #[trigger] existing[i]@ == name
}

/// All asset files of the game with extension `ext` exist.
pub open spec fn game_complete(existing: Seq<String>, ext: Seq<char>) -> bool {
    forall|f: int| 0 <= f < 6 ==> #[trigger] holds_name(existing, file_name(asset_files()[f], ext))
}

/// The base name of asset file `idx`.
fn asset_base(idx: usize) -> (s: &'static str)
    requires
        idx < 6,
    ensures
        s@ == asset_files()[idx as int],
{
    if idx == 0 {
        "MAPHEAD"
    } else if idx == 1 {
        "GAMEMAPS"
    } else if idx == 2 {
        "VGADICT"
    } else if idx == 3 {
        "VGAHEAD"
    } else if idx == 4 {
        "VGAGRAPH"
    } else {
        "VSWAP"
    }
}

/// The extension of game `idx`.
fn game_extension(idx: usize) -> (s: &'static str)
    requires
        idx < 5,
    ensures
        s@ == game_extensions()[idx as int],
{
    if idx == 0 {
        "WL1"
    } else if idx == 1 {
        "WL3"
    } else if idx == 2 {
        "WL6"
    } else if idx == 3 {
        "SDM"
    } else {
        "SOD"
    }
}

/// The name of asset file `nameidx` for the game with extension `ext`.
pub fn asset_file_name(nameidx: usize, ext: &str) -> (s: String)
    requires
        nameidx < 6,
    ensures
        s@ == file_name(asset_files()[nameidx as int], ext@),
{
    let base = joined(String::from_str(asset_base(nameidx)), ".");
    joined(base, ext)
}

/// `existing` holds `name`.
fn has_name(existing: &Vec<String>, name: &str) -> (b: bool)
    ensures
        b == holds_name(existing@, name@),
{
    let mut i: usize = 0;
    while i < existing.len()
        invariant
            i <= existing@.len(),
            forall|j: int| 0 <= j < i ==> existing@[j]@ != name@,
        decreases existing.len() - i,
    {
        if same_text(existing[i].as_str(), name) {
            return true;
        }
        i = i + 1;
    }
    false
}

/// The extension of the first supported game whose asset files all exist,
/// among the names of the files that do.
pub fn detect_game_type(existing: &Vec<String>) -> (r: Result<&'static str, String>)
    ensures
        match r {
            Ok(ext) => exists|k: int|
                0 <= k < 5 && ext@ == game_extensions()[k] && game_complete(existing@, ext@) && forall|j: int|
                    0 <= j < k ==> !game_complete(existing@, #[trigger] game_extensions()[j]),
            Err(e) => (forall|k: int| 0 <= k < 5 ==> !game_complete(existing@, #[trigger] game_extensions()[k]))
                && e@ == "Game asset files not found"@,
        },
{
    let mut k: usize = 0;
    while k < 5
        invariant
            k <= 5,
            forall|j: int| 0 <= j < k ==> !game_complete(existing@, #[trigger] game_extensions()[j]),
        decreases 5 - k,
    {
        let ext = game_extension(k);
        let mut all = true;
        let mut f: usize = 0;
        while f < 6
            invariant
                f <= 6,
                ext@ == game_extensions()[k as int],
                all == forall|g: int| 0 <= g < f ==> #[trigger] holds_name(existing@, file_name(asset_files()[g], ext@)),
            decreases 6 - f,
        {
            let name = asset_file_name(f, ext);
            if !has_name(existing, name.as_str()) {
                all = false;
            }
            f = f + 1;
        }
        if all {
            return Ok(ext);
        }
        k = k + 1;
    }
    Err(String::from_str("Game asset files not found"))
}

/// The game's assets: which game they are for, and its maps.
pub struct GameAssets {
    game_type: &'static str,
    maps: Vec<MapData>,
}

impl GameAssets {
    /// The extension of the game the assets are for.
    pub closed spec fn spec_game_type(&self) -> Seq<char> {
        self.game_type@
    }

    /// The maps, in the order MAPHEAD lists them.
    pub closed spec fn spec_maps(&self) -> Seq<MapData> {
        self.maps@
    }

    pub fn map_count(&self) -> (n: usize)
        ensures
            n == self.spec_maps().len(),
    {
        self.maps.len()
    }

    pub fn map(&self, idx: usize) -> (m: &MapData)
        requires
            idx < self.spec_maps().len(),
        ensures
            *m == self.spec_maps()[idx as int],
    {
        &self.maps[idx]
    }

    /// The assets of the game with extension `game_type`, from the bytes of
    /// its MAPHEAD and GAMEMAPS files: refused where its maps cannot be loaded.
    pub fn load_from(game_type: &'static str, maphead: &[u8], gamemaps: &[u8]) -> (r: Result<Self, String>)
        requires
            maphead@.len() >= 2,
            map_entries(maphead@) is Some,
            gamemaps@.len() + 8 <= usize::MAX,
            maps_decodable(maphead@, gamemaps@),
        ensures
            match r {
                Ok(a) => {
                    let es = map_entries(maphead@)->0;
                    let g = gamemaps@;
                    &&& a.spec_game_type() == game_type@
                    &&& all_maps_load(maphead@, gamemaps@)
                    &&& a.spec_maps().len() == es.len()
                    &&& forall|k: int|
                        0 <= k < es.len() ==> #[trigger] a.spec_maps()[k].spec_name() == map_name(g, es[k])
                            && a.spec_maps()[k].spec_size() == (u16_at(g, es[k] + 18) as u16, u16_at(g, es[k] + 20) as u16)
                            && a.spec_maps()[k].spec_planes() == (plane_words(g, es[k], 0), plane_words(g, es[k], 1), plane_words(g, es[k], 2))
                },
                Err(e) => !all_maps_load(maphead@, gamemaps@),
            },
    {
        match load_maps_from(maphead, gamemaps) {
            Ok(maps) => Ok(GameAssets { game_type, maps }),
            Err(e) => Err(e),
        }
    }

    pub fn game_type(&self) -> (s: &'static str)
        ensures
            s@ == self.spec_game_type(),
    {
        self.game_type
    }
}

/// Whether MAPHEAD lists its map headers within its bytes.
pub fn map_entries_listed(maphead: &[u8]) -> (b: bool)
    ensures
        b == (map_entries(maphead@) is Some),
{
    let ghost m = maphead@;
    let len = maphead.len();
    let mut idx: usize = 2;
    loop
        invariant
            m == maphead@,
            len == m.len(),
            idx >= 2,
            (entries_from(m, idx as int) is Some) == (map_entries(m) is Some),
        decreases len - idx,
    {
        if idx > len || len - idx < 4 {
            return false;
        }
        let v = buf_to_i32(sub_slice(maphead, idx, idx + 4));
        if v <= 0 {
            return true;
        }
        idx = idx + 4;
    }
}

/// Whether the planes of the map whose header starts at `h` are well formed,
/// as far as loading the map reaches them.
fn header_planes_decodable(g: &[u8], h: usize) -> (b: bool)
    requires
        g@.len() > h + 26,
    ensures
        b == planes_decodable(g@, h as int),
{
    let ghost s = g@;
    let len = g.len();
    let mut i: usize = 0;
    while i < 3
        invariant
            s == g@,
            len == s.len(),
            len > h + 26,
            i <= 3,
            forall|j: int| 0 <= j < i ==> #[trigger] plane_fits(s, h as int, j),
            forall|j: int|
                0 <= j < i && plane_offset(s, h as int, j) > 0 && plane_fits(s, h as int, j) ==> (#[trigger] decompressed_plane(
                    plane_chunk(s, h as int, j),
                )) is Some,
        decreases 3 - i,
    {
        let ofs = buf_to_i32(sub_slice(g, h + 4 * i, h + 4 * i + 4));
        let plen = buf_to_u16(sub_slice(g, h + 12 + 2 * i, h + 14 + 2 * i)) as usize;
        assert(ofs as int == plane_offset(s, h as int, i as int));
        assert(plen as int == plane_len(s, h as int, i as int));
        if ofs > 0 {
            let ofs = ofs as usize;
            if ofs > len || len - ofs < plen {
                assert(!plane_fits(s, h as int, i as int));
                assert forall|k: int|
                    0 <= k < 3 && plane_offset(s, h as int, k) > 0 && plane_fits(s, h as int, k) && (forall|j: int|
                        0 <= j < k ==> #[trigger] plane_fits(s, h as int, j)) implies (#[trigger] decompressed_plane(
                    plane_chunk(s, h as int, k),
                )) is Some by {
                    if k > i {
                        assert(plane_fits(s, h as int, i as int));
                    }
                }
                return true;
            }
            let ok = plane_decodes(sub_slice(g, ofs, ofs + plen));
            assert(s.subrange(ofs as int, ofs + plen) == plane_chunk(s, h as int, i as int));
            if !ok {
                assert(!planes_decodable(s, h as int)) by {
                    assert(forall|j: int| 0 <= j < i ==> #[trigger] plane_fits(s, h as int, j));
                }
                return false;
            }
        }
        assert(plane_fits(s, h as int, i as int));
        i = i + 1;
    }
    true
}

/// Whether every map that MAPHEAD lists, with its header within GAMEMAPS,
/// has well-formed planes (what [`load_maps_from`] needs).
pub fn maps_are_decodable(maphead: &[u8], gamemaps: &[u8]) -> (b: bool)
    requires
        map_entries(maphead@) is Some,
    ensures
        b == maps_decodable(maphead@, gamemaps@),
{
    let ghost m = maphead@;
    let ghost g = gamemaps@;
    let ghost es = map_entries(m)->0;
    let mlen = maphead.len();
    let glen = gamemaps.len();
    let mut idx: usize = 2;
    let mut k: usize = 0;
    assert(es.take(0) + entries_from(m, 2)->0 == es);
    loop
        invariant_except_break
            m == maphead@,
            g == gamemaps@,
            mlen == m.len(),
            glen == g.len(),
            es == map_entries(m)->0,
            idx >= 2,
            k + 2 <= idx,
            k <= es.len(),
            entries_from(m, idx as int) is Some,
            es == es.take(k as int) + entries_from(m, idx as int)->0,
            forall|j: int|
                0 <= j < k && g.len() > es[j] + 26 ==> #[trigger] planes_decodable(g, es[j]),
        ensures
            k == es.len(),
            forall|j: int|
                0 <= j < k && g.len() > es[j] + 26 ==> #[trigger] planes_decodable(g, es[j]),
        decreases mlen - idx,
    {
        let h = buf_to_i32(sub_slice(maphead, idx, idx + 4));
        if h <= 0 {
            assert(entries_from(m, idx as int)->0 == Seq::<int>::empty());
            assert(es == es.take(k as int));
            break;
        }
        let ghost rest = entries_from(m, idx as int + 4)->0;
        assert(entries_from(m, idx as int)->0 == seq![h as int] + rest);
        assert(es[k as int] == h) by {
            assert((es.take(k as int) + (seq![h as int] + rest))[k as int] == h);
        }
        let hu = h as usize;
        if glen > 26 && hu < glen - 26 {
            if !header_planes_decodable(gamemaps, hu) {
                return false;
            }
        }
        proof {
            assert(es.take(k as int + 1) + rest == es) by {
                assert(es.take(k as int + 1) == es.take(k as int).push(h as int));
                assert(es.take(k as int) + (seq![h as int] + rest) == es.take(k as int).push(h as int) + rest);
            }
        }
        k = k + 1;
        idx = idx + 4;
    }
    true
}

} // verus!
