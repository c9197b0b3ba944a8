//! Handler for WAD graphics: patches, flats and textures.
use super::lump_bytes::{bytes_as_slice, bytes_clone, bytes_empty, bytes_len, bytes_slice, bytes_view};
use super::map_items::{i16_at, name_key_at, sub_slice, u16_at};
use super::pixmap::{PixMap, PixMapKind};
use super::utils::{buf_to_i16, buf_to_u16, buf_to_u32, hash_lump_name, lump_hash, name_len};
use super::wad::u32_at;
use crate::text::{joined, decimal, decimal_string};
use bytes::Bytes;
use std::collections::HashMap;
use vstd::prelude::*;
use vstd::string::StringExecFns;
use vstd::string::StringSliceAdditionalSpecFns;

verus! {

/// What each key of a map of buffers gives access to.
pub open spec fn contents(m: Map<u64, Bytes>) -> Map<u64, Seq<u8>> {
    m.map_values(|b: Bytes| bytes_view(b))
}

/// The number of textures a TEXTUREx lump declares.
pub open spec fn tex_count(b: Seq<u8>) -> int {
    u32_at(b, 0)
}

/// Where texture `t` starts in a TEXTUREx lump.
pub open spec fn tex_offset(b: Seq<u8>, t: int) -> int {
    u32_at(b, 4 + 4 * t)
}

/// The key of texture `t`: the hash of its 8-byte name.
pub open spec fn tex_key(b: Seq<u8>, t: int) -> u64 {
    name_key_at(b, tex_offset(b, t))
}

/// The size of the record of texture `t`: 22 bytes and 10 per patch.
pub open spec fn tex_record_len(b: Seq<u8>, t: int) -> int {
    22 + 10 * u16_at(b, tex_offset(b, t) + 20)
}

/// The lump holds the count and the offsets of its textures.
pub open spec fn tex_header_ok(b: Seq<u8>) -> bool {
    b.len() > 8 && b.len() > 4 + 4 * tex_count(b)
}

/// The record of texture `t` lies within the lump.
pub open spec fn tex_entry_ok(b: Seq<u8>, t: int) -> bool {
    b.len() > tex_offset(b, t) + 28 && b.len() >= tex_offset(b, t) + tex_record_len(b, t)
}

/// The record of texture `t`.
pub open spec fn tex_record(b: Seq<u8>, t: int) -> Seq<u8> {
    b.subrange(tex_offset(b, t), tex_offset(b, t) + tex_record_len(b, t))
}

/// `m` after storing the records of the first `n` textures of the lump,
/// each under its key, in order.
pub open spec fn textures_after(m: Map<u64, Seq<u8>>, b: Seq<u8>, n: nat) -> Map<u64, Seq<u8>>
    decreases n,
{
    if n == 0 {
        m
    } else {
        textures_after(m, b, (n - 1) as nat).insert(
            tex_key(b, n - 1),
            tex_record(b, n - 1),
        )
    }
}

/// The keys of the first `n` textures of the lump.
pub open spec fn tex_keys(b: Seq<u8>, n: nat) -> Seq<u64> {
    Seq::new(n, |t: int| tex_key(b, t))
}

/// The message for entry `t` of a TEXTUREx lump that does not fit.
pub open spec fn tex_entry_error(b: Seq<u8>, t: int) -> Seq<char> {
    "TEXTUREx entry #"@ + decimal(t as nat) + " out of bounds: len="@ + decimal(b.len())
        + " < ofs="@ + decimal(tex_offset(b, t) as nat)
}

/// A PNAMES lump holds its count and all the 8-byte names it announces.
pub open spec fn pnames_ok(b: Seq<u8>) -> bool {
    b.len() > 4 && b.len() >= 4 + 8 * u32_at(b, 0)
}

/// The key of patch name `i` in a PNAMES lump.
pub open spec fn pname_key(pnames: Seq<u8>, i: int) -> u64 {
    name_key_at(pnames, 8 * i + 4)
}

/// The index into PNAMES of patch `p` of a texture record.
pub open spec fn tex_patch_index(rec: Seq<u8>, p: int) -> int {
    u16_at(rec, 22 + 10 * p + 4)
}

/// The message for entry `t` of a TEXTUREx lump of `len` bytes, at `offs`, that does not fit.
fn entry_error_message(t: usize, len: usize, offs: usize) -> (e: String)
    ensures
        e@ == "TEXTUREx entry #"@ + decimal(t as nat) + " out of bounds: len="@ + decimal(len as nat)
            + " < ofs="@ + decimal(offs as nat),
{
    let msg = joined(String::from_str("TEXTUREx entry #"), decimal_string(t as u64).as_str());
    let msg = joined(msg, " out of bounds: len=");
    let msg = joined(msg, decimal_string(len as u64).as_str());
    let msg = joined(msg, " < ofs=");
    joined(msg, decimal_string(offs as u64).as_str())
}

pub struct Graphics {
    patches: HashMap<u64, Bytes>,
    flats: HashMap<u64, Bytes>,
    pnames: Bytes,
    textures: HashMap<u64, Bytes>,
    dbg_patch_keys: Vec<u64>,
    dbg_flat_keys: Vec<u64>,
    dbg_tex_keys: Vec<u64>,
}

pub struct TexturePatch {
    origin_x: i32,
    origin_y: i32,
    pixmap: PixMap,
}

pub struct Texture {
    width: u16,
    height: u16,
    patches: Vec<TexturePatch>,
}

impl Graphics {
    /// The patches, by key.
    pub closed spec fn spec_patches(&self) -> Map<u64, Seq<u8>> {
        contents(self.patches@)
    }

    /// The flats, by key.
    pub closed spec fn spec_flats(&self) -> Map<u64, Seq<u8>> {
        contents(self.flats@)
    }

    /// The texture records, by key.
    pub closed spec fn spec_textures(&self) -> Map<u64, Seq<u8>> {
        contents(self.textures@)
    }

    /// The PNAMES lump.
    pub closed spec fn spec_pnames(&self) -> Seq<u8> {
        bytes_view(self.pnames)
    }

    /// The keys of the patches, flats and textures, in the order they were added.
    pub closed spec fn spec_dbg_keys(&self) -> (Seq<u64>, Seq<u64>, Seq<u64>) {
        (self.dbg_patch_keys@, self.dbg_flat_keys@, self.dbg_tex_keys@)
    }

    pub fn new() -> (g: Self)
        ensures
            g.spec_patches() == Map::<u64, Seq<u8>>::empty(),
            g.spec_flats() == Map::<u64, Seq<u8>>::empty(),
            g.spec_textures() == Map::<u64, Seq<u8>>::empty(),
            g.spec_pnames().len() == 0,
            g.spec_dbg_keys() == (Seq::<u64>::empty(), Seq::<u64>::empty(), Seq::<u64>::empty()),
    {
        let g = Graphics {
            patches: HashMap::new(),
            flats: HashMap::new(),
            pnames: bytes_empty(),
            textures: HashMap::new(),
            dbg_patch_keys: Vec::new(),
            dbg_flat_keys: Vec::new(),
            dbg_tex_keys: Vec::new(),
        };
        assert(g.spec_patches() == Map::<u64, Seq<u8>>::empty());
        assert(g.spec_flats() == Map::<u64, Seq<u8>>::empty());
        assert(g.spec_textures() == Map::<u64, Seq<u8>>::empty());
        g
    }

    pub fn dbg_patch_keys(&self) -> (k: &Vec<u64>)
        ensures
            k@ == self.spec_dbg_keys().0,
    {
        &self.dbg_patch_keys
    }

    pub fn dbg_flat_keys(&self) -> (k: &Vec<u64>)
        ensures
            k@ == self.spec_dbg_keys().1,
    {
        &self.dbg_flat_keys
    }

    pub fn dbg_texture_keys(&self) -> (k: &Vec<u64>)
        ensures
            k@ == self.spec_dbg_keys().2,
    {
        &self.dbg_tex_keys
    }

    /// Stores a patch under the hash of its name.
    pub fn add_patch(&mut self, name: &str, lump: &Bytes)
        ensures
            final(self).spec_patches() == old(self).spec_patches().insert(
                lump_hash(name.spec_bytes().take(name_len(name.spec_bytes()))),
                bytes_view(*lump),
            ),
            final(self).spec_flats() == old(self).spec_flats(),
            final(self).spec_textures() == old(self).spec_textures(),
            final(self).spec_pnames() == old(self).spec_pnames(),
            final(self).spec_dbg_keys() == (old(self).spec_dbg_keys().0.push(
                lump_hash(name.spec_bytes().take(name_len(name.spec_bytes()))),
            ), old(self).spec_dbg_keys().1, old(self).spec_dbg_keys().2),
    {
        let key = hash_lump_name(name.as_bytes());
        let b = bytes_clone(lump);
        self.patches.insert(key, b);
        assert(contents(self.patches@) == contents(old(self).patches@).insert(key, bytes_view(*lump)));
        self.dbg_patch_keys.push(key);
    }

    /// Stores a flat under the hash of its name.
    pub fn add_flat(&mut self, name: &str, lump: &Bytes)
        ensures
            final(self).spec_flats() == old(self).spec_flats().insert(
                lump_hash(name.spec_bytes().take(name_len(name.spec_bytes()))),
                bytes_view(*lump),
            ),
            final(self).spec_patches() == old(self).spec_patches(),
            final(self).spec_textures() == old(self).spec_textures(),
            final(self).spec_pnames() == old(self).spec_pnames(),
            final(self).spec_dbg_keys() == (old(self).spec_dbg_keys().0, old(
                self,
            ).spec_dbg_keys().1.push(
                lump_hash(name.spec_bytes().take(name_len(name.spec_bytes()))),
            ), old(self).spec_dbg_keys().2),
    {
        let key = hash_lump_name(name.as_bytes());
        let b = bytes_clone(lump);
        self.flats.insert(key, b);
        assert(contents(self.flats@) == contents(old(self).flats@).insert(key, bytes_view(*lump)));
        self.dbg_flat_keys.push(key);
    }

    /// Takes the PNAMES lump, refused where it is shorter than its count announces.
    pub fn set_patch_names(&mut self, patches: &Bytes) -> (r: Result<(), String>)
        ensures
            final(self).spec_patches() == old(self).spec_patches(),
            final(self).spec_flats() == old(self).spec_flats(),
            final(self).spec_textures() == old(self).spec_textures(),
            final(self).spec_dbg_keys() == old(self).spec_dbg_keys(),
            match r {
                Ok(()) => pnames_ok(bytes_view(*patches)) && final(self).spec_pnames() == bytes_view(
                    *patches,
                ),
                Err(e) => !pnames_ok(bytes_view(*patches)) && final(self).spec_pnames() == old(
                    self,
                ).spec_pnames() && e@ == "PNAMES lump size too small"@,
            },
    {
        let bytes = bytes_as_slice(patches);
        if bytes.len() <= 4 {
            return Err(String::from_str("PNAMES lump size too small"));
        }
        let cnt = buf_to_u32(sub_slice(bytes, 0, 4)) as u64;
        if (bytes.len() as u64) < 4 + cnt * 8 {
            return Err(String::from_str("PNAMES lump size too small"));
        }
        self.pnames = bytes_clone(patches);
        Ok(())
    }

    /// Stores the record of each texture of a TEXTUREx lump under its key, in
    /// order; on an entry that does not fit, stops there with an error, the
    /// textures before it stored.
    pub fn add_textures(&mut self, bytes: &Bytes) -> (r: Result<(), String>)
        ensures
            final(self).spec_patches() == old(self).spec_patches(),
            final(self).spec_flats() == old(self).spec_flats(),
            final(self).spec_pnames() == old(self).spec_pnames(),
            final(self).spec_dbg_keys().0 == old(self).spec_dbg_keys().0,
            final(self).spec_dbg_keys().1 == old(self).spec_dbg_keys().1,
            ({
                let b = bytes_view(*bytes);
                match r {
                    Ok(()) => tex_header_ok(b) && (forall|t: int|
                        0 <= t < tex_count(b) ==> #[trigger] tex_entry_ok(b, t))
                        && final(self).spec_textures() == textures_after(
                        old(self).spec_textures(),
                        b,
                        tex_count(b) as nat,
                    ) && final(self).spec_dbg_keys().2 == old(self).spec_dbg_keys().2 + tex_keys(
                        b,
                        tex_count(b) as nat,
                    ),
                    Err(e) => if !tex_header_ok(b) {
                        final(self).spec_textures() == old(self).spec_textures()
                            && final(self).spec_dbg_keys().2 == old(self).spec_dbg_keys().2
                            && e@ == "TEXTUREx lump size too small: "@ + decimal(b.len())
                    } else {
                        exists|t: int|
                            0 <= t < tex_count(b) && !tex_entry_ok(b, t) && (forall|u: int|
                                0 <= u < t ==> #[trigger] tex_entry_ok(b, u))
                                && final(self).spec_textures() == textures_after(
                                old(self).spec_textures(),
                                b,
                                t as nat,
                            ) && final(self).spec_dbg_keys().2 == old(self).spec_dbg_keys().2
                                + tex_keys(b, t as nat) && e@ == tex_entry_error(b, t)
                    },
                }
            }),
    {
        let ghost b = bytes_view(*bytes);
        let s = bytes_as_slice(bytes);
        let len = s.len();
        if len <= 8 {
            return Err(joined(String::from_str("TEXTUREx lump size too small: "), decimal_string(len as u64).as_str()));
        }
        let cnt = buf_to_u32(sub_slice(s, 0, 4)) as u64;
        if len as u64 <= 4 + 4 * cnt {
            return Err(joined(String::from_str("TEXTUREx lump size too small: "), decimal_string(len as u64).as_str()));
        }
        let cnt = cnt as usize;
        let mut t: usize = 0;
        while t < cnt
            invariant
                b == bytes_view(*bytes),
                s@ == b,
                len == b.len(),
                cnt == tex_count(b),
                tex_header_ok(b),
                t <= cnt,
                forall|u: int| 0 <= u < t ==> #[trigger] tex_entry_ok(b, u),
                contents(self.textures@) == textures_after(contents(old(self).textures@), b, t as nat),
                self.dbg_tex_keys@ == old(self).dbg_tex_keys@ + tex_keys(b, t as nat),
                self.patches == old(self).patches,
                self.flats == old(self).flats,
                self.pnames == old(self).pnames,
                self.dbg_patch_keys == old(self).dbg_patch_keys,
                self.dbg_flat_keys == old(self).dbg_flat_keys,
            decreases cnt - t,
        {
            let offs = buf_to_u32(sub_slice(s, 4 + 4 * t, 8 + 4 * t)) as usize;
            if len as u64 <= offs as u64 + 28 {
                let e = entry_error_message(t, len, offs);
                assert(e@ == tex_entry_error(b, t as int));
                assert(!tex_entry_ok(b, t as int));
                return Err(e);
            }
            let key = hash_lump_name(sub_slice(s, offs, offs + 8));
            assert(s@.subrange(offs as int, offs + 8) == b.subrange(offs as int, offs + 8));
            let patch_count = buf_to_u16(sub_slice(s, offs + 20, offs + 22)) as usize;
            let tex_len = 22 + 10 * patch_count;
            if (len as u64) < offs as u64 + tex_len as u64 {
                let e = entry_error_message(t, len, offs);
                assert(e@ == tex_entry_error(b, t as int));
                assert(!tex_entry_ok(b, t as int));
                return Err(e);
            }
            let tex_bytes = bytes_slice(bytes, offs, offs + tex_len);
            self.textures.insert(key, tex_bytes);
            assert(contents(self.textures@) == textures_after(contents(old(self).textures@), b, t as nat + 1));
            self.dbg_tex_keys.push(key);
            assert(tex_keys(b, t as nat + 1) == tex_keys(b, t as nat).push(key));
            t = t + 1;
        }
        Ok(())
    }

    /// The key of patch `p` of texture record `rec`, through PNAMES.
    pub open spec fn patch_key(&self, rec: Seq<u8>, p: int) -> u64 {
        pname_key(self.spec_pnames(), tex_patch_index(rec, p))
    }

    /// The texture at `key` can be assembled without reading past its record
    /// or past PNAMES, and the patches it names are long enough to hold a
    /// width and a height.
    pub open spec fn texture_readable(&self, key: u64) -> bool {
        self.spec_textures().contains_key(key) ==> {
            let rec = self.spec_textures()[key];
            &&& rec.len() >= 22 + 10 * u16_at(rec, 20)
            &&& forall|p: int|
                0 <= p < u16_at(rec, 20) ==> 8 * #[trigger] tex_patch_index(rec, p) + 12
                    <= self.spec_pnames().len()
            &&& forall|p: int|
                0 <= p < u16_at(rec, 20) && #[trigger] self.spec_patches().contains_key(
                    self.patch_key(rec, p),
                ) ==> self.spec_patches()[self.patch_key(rec, p)].len() >= 4
        }
    }

    /// Whether the texture at `key` can be assembled (what
    /// [`Graphics::get_texture`] needs); `false` also for a record too short
    /// to hold its patch count.
    pub fn texture_is_readable(&self, key: u64) -> (b: bool)
        ensures
            b == self.texture_readable(key),
    {
        let tb = match self.textures.get(&key) {
            Some(b) => b,
            None => {
                return true;
            },
        };
        let ghost rec = bytes_view(*tb);
        let tex_bytes = bytes_as_slice(tb);
        let len = tex_bytes.len();
        if len < 22 {
            return false;
        }
        let patch_cnt = buf_to_u16(sub_slice(tex_bytes, 20, 22)) as usize;
        if len < 22 + 10 * patch_cnt {
            return false;
        }
        let pnames = bytes_as_slice(&self.pnames);
        let plen = pnames.len();
        let mut idx: usize = 0;
        while idx < patch_cnt
            invariant
                rec == self.spec_textures()[key],
                tex_bytes@ == rec,
                len == rec.len(),
                pnames@ == self.spec_pnames(),
                plen == pnames@.len(),
                self.spec_textures().contains_key(key),
                patch_cnt == u16_at(rec, 20),
                rec.len() >= 22 + 10 * u16_at(rec, 20),
                idx <= patch_cnt,
                forall|p: int| 0 <= p < idx ==> 8 * #[trigger] tex_patch_index(rec, p) + 12 <= self.spec_pnames().len(),
                forall|p: int|
                    0 <= p < idx && #[trigger] self.spec_patches().contains_key(self.patch_key(rec, p))
                        ==> self.spec_patches()[self.patch_key(rec, p)].len() >= 4,
            decreases patch_cnt - idx,
        {
            let pofs = 22 + 10 * idx;
            let patch_idx = buf_to_u16(sub_slice(tex_bytes, pofs + 4, pofs + 6)) as usize;
            assert(patch_idx == tex_patch_index(rec, idx as int));
            if plen < 12 || patch_idx > (plen - 12) / 8 {
                assert(!(8 * tex_patch_index(rec, idx as int) + 12 <= self.spec_pnames().len()));
                return false;
            }
            let patch_key = hash_lump_name(sub_slice(pnames, patch_idx * 8 + 4, patch_idx * 8 + 12));
            assert(patch_key == self.patch_key(rec, idx as int));
            match self.patches.get(&patch_key) {
                Some(pb) => {
                    if bytes_len(pb) < 4 {
                        assert(self.spec_patches().contains_key(self.patch_key(rec, idx as int)));
                        return false;
                    }
                },
                None => {},
            }
            idx = idx + 1;
        }
        true
    }

    /// The patch stored under `key`.
    pub fn get_patch(&self, key: u64) -> (p: Option<PixMap>)
        requires
            self.spec_patches().contains_key(key) ==> self.spec_patches()[key].len() >= 4,
        ensures
            match p {
                Some(p) => self.spec_patches().contains_key(key) && p.spec_data()
                    == self.spec_patches()[key] && p.spec_kind() == PixMapKind::Patch
                    && p.spec_width() == u16_at(p.spec_data(), 0) && p.spec_height() == u16_at(
                    p.spec_data(),
                    2,
                ),
                None => !self.spec_patches().contains_key(key),
            },
    {
        match self.patches.get(&key) {
            Some(b) => Some(PixMap::from_patch(bytes_clone(b))),
            None => None,
        }
    }

    /// The flat stored under `key`.
    pub fn get_flat(&self, key: u64) -> (p: Option<PixMap>)
        ensures
            match p {
                Some(p) => self.spec_flats().contains_key(key) && p.spec_data()
                    == self.spec_flats()[key] && p.spec_kind() == PixMapKind::Flat
                    && p.spec_width() == 64 && p.spec_height() == (p.spec_data().len() / 64) as u16,
                None => !self.spec_flats().contains_key(key),
            },
    {
        match self.flats.get(&key) {
            Some(b) => Some(PixMap::from_flat(bytes_clone(b))),
            None => None,
        }
    }

    /// The texture stored under `key`, with its patches; `None` where there is
    /// no such texture or one of its patches is missing.
    pub fn get_texture(&self, key: u64) -> (t: Option<Texture>)
        requires
            self.texture_readable(key),
        ensures
            match t {
                Some(t) => {
                    let rec = self.spec_textures()[key];
                    &&& self.spec_textures().contains_key(key)
                    &&& forall|p: int|
                        0 <= p < u16_at(rec, 20) ==> #[trigger] self.spec_patches().contains_key(
                            self.patch_key(rec, p),
                        )
                    &&& t.spec_width() == u16_at(rec, 12)
                    &&& t.spec_height() == u16_at(rec, 14)
                    &&& t.spec_patches().len() == u16_at(rec, 20)
                    &&& forall|p: int|
                        0 <= p < u16_at(rec, 20) ==> #[trigger] t.spec_patches()[p] == (
                            i16_at(rec, 22 + 10 * p),
                            i16_at(rec, 24 + 10 * p),
                            self.spec_patches()[self.patch_key(rec, p)],
                        )
                },
                None => !self.spec_textures().contains_key(key) || exists|p: int|
                    0 <= p < u16_at(self.spec_textures()[key], 20)
                        && !(#[trigger] self.spec_patches().contains_key(
                        self.patch_key(self.spec_textures()[key], p),
                    )),
            },
    {
        let tb = match self.textures.get(&key) {
            Some(b) => b,
            None => {
                return None;
            },
        };
        let ghost rec = bytes_view(*tb);
        let tex_bytes = bytes_as_slice(tb);
        let width = buf_to_u16(sub_slice(tex_bytes, 12, 14));
        let height = buf_to_u16(sub_slice(tex_bytes, 14, 16));
        let patch_cnt = buf_to_u16(sub_slice(tex_bytes, 20, 22)) as usize;
        let pnames = bytes_as_slice(&self.pnames);
        let mut patches: Vec<TexturePatch> = Vec::new();
        let mut idx: usize = 0;
        while idx < patch_cnt
            invariant
                rec == self.spec_textures()[key],
                tex_bytes@ == rec,
                pnames@ == self.spec_pnames(),
                self.spec_textures().contains_key(key),
                self.texture_readable(key),
                patch_cnt == u16_at(rec, 20),
                idx <= patch_cnt,
                patches@.len() == idx,
                forall|p: int| 0 <= p < idx ==> #[trigger] self.spec_patches().contains_key(self.patch_key(rec, p)),
                forall|p: int|
                    0 <= p < idx ==> #[trigger] patch_view(patches@[p]) == (
                        i16_at(rec, 22 + 10 * p),
                        i16_at(rec, 24 + 10 * p),
                        self.spec_patches()[self.patch_key(rec, p)],
                    ),
            decreases patch_cnt - idx,
        {
            let pofs = 22 + 10 * idx;
            let origin_x = buf_to_i16(sub_slice(tex_bytes, pofs, pofs + 2)) as i32;
            let origin_y = buf_to_i16(sub_slice(tex_bytes, pofs + 2, pofs + 4)) as i32;
            let patch_idx = buf_to_u16(sub_slice(tex_bytes, pofs + 4, pofs + 6)) as usize;
            assert(8 * tex_patch_index(rec, idx as int) + 12 <= self.spec_pnames().len());
            let patch_key = hash_lump_name(sub_slice(pnames, patch_idx * 8 + 4, patch_idx * 8 + 12));
            assert(patch_key == self.patch_key(rec, idx as int));
            let pixmap = match self.get_patch(patch_key) {
                Some(p) => p,
                None => {
                    return None;
                },
            };
            patches.push(TexturePatch { origin_x, origin_y, pixmap });
            idx = idx + 1;
        }
        let t = Texture { width, height, patches };
        assert(t.spec_patches().len() == patch_cnt);
        Some(t)
    }
}


/// The origin and the bytes of a patch of a texture.
pub open spec fn patch_view(tp: TexturePatch) -> (int, int, Seq<u8>) {
    (tp.spec_origin().0, tp.spec_origin().1, tp.spec_pixmap().spec_data())
}

impl TexturePatch {
    /// Where the patch is placed within the texture.
    pub closed spec fn spec_origin(&self) -> (int, int) {
        (self.origin_x as int, self.origin_y as int)
    }

    /// The patch's pixels.
    pub closed spec fn spec_pixmap(&self) -> PixMap {
        self.pixmap
    }
}

impl Texture {
    pub closed spec fn spec_width(&self) -> u16 {
        self.width
    }

    pub closed spec fn spec_height(&self) -> u16 {
        self.height
    }

    /// The origin and the bytes of each patch, in order.
    pub closed spec fn spec_patches(&self) -> Seq<(int, int, Seq<u8>)> {
        self.patches@.map_values(|tp: TexturePatch| patch_view(tp))
    }

    pub fn new() -> (t: Texture)
        ensures
            t.spec_width() == 0,
            t.spec_height() == 0,
            t.spec_patches().len() == 0,
    {
        Texture { width: 0, height: 0, patches: Vec::new() }
    }

    pub fn width(&self) -> (w: u16)
        ensures
            w == self.spec_width(),
    {
        self.width
    }

    pub fn height(&self) -> (h: u16)
        ensures
            h == self.spec_height(),
    {
        self.height
    }

    /// The number of patches the texture is made of.
    pub fn patch_count(&self) -> (n: usize)
        ensures
            n == self.spec_patches().len(),
    {
        self.patches.len()
    }

    /// Patch `i`: where it is placed in the texture, and its pixels.
    pub fn patch_at(&self, i: usize) -> (r: (i32, i32, &PixMap))
        requires
            i < self.spec_patches().len(),
        ensures
            (r.0 as int, r.1 as int, r.2.spec_data()) == self.spec_patches()[i as int],
    {
        let tp = &self.patches[i];
        (tp.origin_x, tp.origin_y, &tp.pixmap)
    }
}

} // verus!
