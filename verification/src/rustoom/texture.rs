//! The textures of a WAD, decoded from the PNAMES and TEXTUREx lumps.
use super::graphics::{pname_key, pnames_ok, tex_count, tex_entry_ok, tex_entry_error, tex_header_ok, tex_key, tex_offset};
use super::map_items::{i16_at, sub_slice, u16_at};
use super::utils::{buf_to_i16, buf_to_u16, buf_to_u32, hash_lump_name};
use crate::text::{joined, decimal, decimal_string};
use std::collections::HashMap;
use vstd::prelude::*;
use vstd::string::StringExecFns;

verus! {

struct TexturePatch {
    origin_x: i16,
    origin_y: i16,
    patch_idx: u16,
}

struct Texture {
    width: i32,
    height: i32,
    patches: Vec<TexturePatch>,
}

/// A texture as the TEXTUREx lump describes it: its width, its height, and
/// for each patch its origin and its index into PNAMES.
pub open spec fn tex_info(b: Seq<u8>, t: int) -> (int, int, Seq<(int, int, int)>) {
    let offs = tex_offset(b, t);
    (
        u16_at(b, offs + 12),
        u16_at(b, offs + 14),
        Seq::new(
            u16_at(b, offs + 20) as nat,
            |p: int|
                (i16_at(b, offs + 22 + 10 * p), i16_at(b, offs + 24 + 10 * p), u16_at(
                    b,
                    offs + 26 + 10 * p,
                )),
        ),
    )
}

/// `m` after storing the first `n` textures of the lump, each under its key, in order.
pub open spec fn infos_after(
    m: Map<u64, (int, int, Seq<(int, int, int)>)>,
    b: Seq<u8>,
    n: nat,
) -> Map<u64, (int, int, Seq<(int, int, int)>)>
    decreases n,
{
    if n == 0 {
        m
    } else {
        infos_after(m, b, (n - 1) as nat).insert(tex_key(b, n - 1), tex_info(b, n - 1))
    }
}

spec fn patch_info(p: TexturePatch) -> (int, int, int) {
    (p.origin_x as int, p.origin_y as int, p.patch_idx as int)
}

spec fn texture_info(t: Texture) -> (int, int, Seq<(int, int, int)>) {
    (t.width as int, t.height as int, t.patches@.map_values(|p: TexturePatch| patch_info(p)))
}

pub struct TextureSet {
    patch_map: Vec<u64>,
    tex_map: HashMap<u64, Texture>,
}

impl TextureSet {
    /// The keys of the patch names, in PNAMES order.
    pub closed spec fn spec_patch_map(&self) -> Seq<u64> {
        self.patch_map@
    }

    /// The textures, by key.
    pub closed spec fn spec_textures(&self) -> Map<u64, (int, int, Seq<(int, int, int)>)> {
        self.tex_map@.map_values(|t: Texture| texture_info(t))
    }

    /// The number of textures.
    pub closed spec fn spec_texture_count(&self) -> nat {
        self.tex_map@.len()
    }

    pub fn new() -> (s: Self)
        ensures
            s.spec_patch_map().len() == 0,
            s.spec_textures() == Map::<u64, (int, int, Seq<(int, int, int)>)>::empty(),
            s.spec_texture_count() == 0,
    {
        let s = TextureSet { patch_map: Vec::new(), tex_map: HashMap::new() };
        assert(s.spec_textures() == Map::<u64, (int, int, Seq<(int, int, int)>)>::empty());
        s
    }

    /// Reads the keys of the patch names from a PNAMES lump; refused, with
    /// nothing changed, where the lump is shorter than its count announces.
    pub fn parse_patch_names(&mut self, bytes: &[u8]) -> (r: Result<(), String>)
        ensures
            final(self).spec_textures() == old(self).spec_textures(),
            final(self).spec_texture_count() == old(self).spec_texture_count(),
            match r {
                Ok(()) => pnames_ok(bytes@) && final(self).spec_patch_map() == Seq::new(
                    u32_at_0(bytes@),
                    |i: int| pname_key(bytes@, i),
                ),
                Err(e) => !pnames_ok(bytes@) && final(self).spec_patch_map() == old(
                    self,
                ).spec_patch_map() && e@ == "PNAMES lump size too small"@,
            },
    {
        if bytes.len() <= 4 {
            return Err(String::from_str("PNAMES lump size too small"));
        }
        let cnt = buf_to_u32(sub_slice(bytes, 0, 4)) as u64;
        if (bytes.len() as u64) < 4 + cnt * 8 {
            return Err(String::from_str("PNAMES lump size too small"));
        }
        let cnt = cnt as usize;
        let len = bytes.len();
        let mut keys: Vec<u64> = Vec::with_capacity(cnt);
        let mut i: usize = 0;
        while i < cnt
            invariant
                i <= cnt,
                len == bytes@.len(),
                4 + 8 * cnt <= bytes@.len(),
                keys@ == Seq::new(i as nat, |k: int| pname_key(bytes@, k)),
            decreases cnt - i,
        {
            let idx = 4 + i * 8;
            let key = hash_lump_name(sub_slice(bytes, idx, idx + 8));
            keys.push(key);
            i = i + 1;
        }
        self.patch_map = keys;
        Ok(())
    }

    /// Decodes each texture of a TEXTUREx lump and stores it under its key, in
    /// order; on an entry that does not fit, stops there with an error, the
    /// textures before it stored.
    pub fn parse_textures(&mut self, bytes: &[u8]) -> (r: Result<(), String>)
        ensures
            final(self).spec_patch_map() == old(self).spec_patch_map(),
            ({
                let b = bytes@;
                match r {
                    Ok(()) => tex_header_ok(b) && (forall|t: int|
                        0 <= t < tex_count(b) ==> #[trigger] tex_entry_ok(b, t))
                        && final(self).spec_textures() == infos_after(
                        old(self).spec_textures(),
                        b,
                        tex_count(b) as nat,
                    ),
                    Err(e) => if !tex_header_ok(b) {
                        final(self).spec_textures() == old(self).spec_textures() && e@
                            == "TEXTUREx lump size too small: "@ + decimal(b.len())
                    } else {
                        exists|t: int|
                            0 <= t < tex_count(b) && !tex_entry_ok(b, t) && (forall|u: int|
                                0 <= u < t ==> #[trigger] tex_entry_ok(b, u))
                                && final(self).spec_textures() == infos_after(
                                old(self).spec_textures(),
                                b,
                                t as nat,
                            ) && e@ == tex_entry_error(b, t)
                    },
                }
            }),
    {
        let ghost b = bytes@;
        let len = bytes.len();
        if len <= 8 {
            return Err(joined(String::from_str("TEXTUREx lump size too small: "), decimal_string(len as u64).as_str()));
        }
        let cnt = buf_to_u32(sub_slice(bytes, 0, 4)) as u64;
        if len as u64 <= 4 + 4 * cnt {
            return Err(joined(String::from_str("TEXTUREx lump size too small: "), decimal_string(len as u64).as_str()));
        }
        let cnt = cnt as usize;
        let mut t: usize = 0;
        while t < cnt
            invariant
                b == bytes@,
                len == b.len(),
                cnt == tex_count(b),
                tex_header_ok(b),
                t <= cnt,
                forall|u: int| 0 <= u < t ==> #[trigger] tex_entry_ok(b, u),
                self.tex_map@.map_values(|x: Texture| texture_info(x)) == infos_after(
                    old(self).tex_map@.map_values(|x: Texture| texture_info(x)),
                    b,
                    t as nat,
                ),
                self.patch_map == old(self).patch_map,
            decreases cnt - t,
        {
            let offs = buf_to_u32(sub_slice(bytes, 4 + 4 * t, 8 + 4 * t)) as usize;
            if len as u64 <= offs as u64 + 28 {
                let e = entry_error_text(t, len, offs);
                assert(e@ == tex_entry_error(b, t as int));
                assert(!tex_entry_ok(b, t as int));
                return Err(e);
            }
            let key = hash_lump_name(sub_slice(bytes, offs, offs + 8));
            let width = buf_to_u16(sub_slice(bytes, offs + 12, offs + 14)) as i32;
            let height = buf_to_u16(sub_slice(bytes, offs + 14, offs + 16)) as i32;
            let patch_count = buf_to_u16(sub_slice(bytes, offs + 20, offs + 22)) as usize;
            if (len as u64) < offs as u64 + 22 + 10 * patch_count as u64 {
                let e = entry_error_text(t, len, offs);
                assert(e@ == tex_entry_error(b, t as int));
                assert(!tex_entry_ok(b, t as int));
                return Err(e);
            }
            let mut patches: Vec<TexturePatch> = Vec::with_capacity(patch_count);
            let mut p: usize = 0;
            while p < patch_count
                invariant
                    b == bytes@,
                    len == b.len(),
                    offs == tex_offset(b, t as int),
                    patch_count == u16_at(b, offs + 20),
                    offs + 22 + 10 * patch_count <= len,
                    p <= patch_count,
                    patches@.map_values(|x: TexturePatch| patch_info(x)) == tex_info(
                        b,
                        t as int,
                    ).2.take(p as int),
                decreases patch_count - p,
            {
                let p_ofs = offs + 22 + 10 * p;
                let origin_x = buf_to_i16(sub_slice(bytes, p_ofs, p_ofs + 2));
                let origin_y = buf_to_i16(sub_slice(bytes, p_ofs + 2, p_ofs + 4));
                let patch_idx = buf_to_u16(sub_slice(bytes, p_ofs + 4, p_ofs + 6));
                let tp = TexturePatch { origin_x, origin_y, patch_idx };
                proof {
                    assert(patch_info(tp) == tex_info(b, t as int).2[p as int]);
                    assert(tex_info(b, t as int).2.take(p as int + 1) == tex_info(b, t as int).2.take(
                        p as int,
                    ).push(patch_info(tp)));
                }
                patches.push(tp);
                assert(patches@.map_values(|x: TexturePatch| patch_info(x)) == tex_info(
                    b,
                    t as int,
                ).2.take(p as int + 1));
                p = p + 1;
            }
            let tex = Texture { width, height, patches };
            assert(tex_info(b, t as int).2.take(patch_count as int) == tex_info(b, t as int).2);
            assert(texture_info(tex) == tex_info(b, t as int));
            self.tex_map.insert(key, tex);
            assert(self.tex_map@.map_values(|x: Texture| texture_info(x)) == infos_after(
                old(self).tex_map@.map_values(|x: Texture| texture_info(x)),
                b,
                t as nat + 1,
            ));
            t = t + 1;
        }
        Ok(())
    }

    pub fn is_initialized(&self) -> (r: bool)
        ensures
            r == (self.spec_patch_map().len() > 0 && self.spec_texture_count() > 0),
    {
        self.patch_map.len() > 0 && self.tex_map.len() > 0
    }
}

/// The count a PNAMES lump starts with.
pub open spec fn u32_at_0(b: Seq<u8>) -> nat {
    super::wad::u32_at(b, 0) as nat
}

/// The message for entry `t` of a TEXTUREx lump of `len` bytes, at `offs`, that does not fit.
fn entry_error_text(t: usize, len: usize, offs: usize) -> (e: String)
    ensures
        e@ == "TEXTUREx entry #"@ + decimal(t as nat) + " out of bounds: len="@ + decimal(len as nat)
            + " < ofs="@ + decimal(offs as nat),
{
    let msg = joined(String::from_str("TEXTUREx entry #"), decimal_string(t as u64).as_str());
    let msg = joined(msg, " out of bounds: len=");
    let msg = joined(msg, decimal_string(len as u64).as_str());
    let msg = joined(msg, " < ofs=");
    joined(msg, decimal_string(offs as u64).as_str())
}

} // verus!
