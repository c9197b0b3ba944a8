//! WAD parser: the header, the directory and the lumps of a WAD file.
use super::lump_bytes::{bytes_as_slice, bytes_from_vec, bytes_len, bytes_slice, bytes_view};
use super::map_items::sub_slice;
use super::utils::{buf_to_u32, le_u32, lemma_name_end_bounds, name_end_from, name_len};
use crate::text::{chars_to_string, joined, decimal, decimal_string};
use bytes::Bytes;
use vstd::prelude::*;
use vstd::string::StringExecFns;

verus! {

#[derive(Debug, Clone, Copy, PartialEq, Eq, Structural)]
pub enum WadKind {
    IWAD,
    PWAD,
}

/// The four bytes that open a WAD file of the given kind.
pub open spec fn kind_tag(kind: WadKind) -> Seq<u8> {
    match kind {
        WadKind::IWAD => seq![73u8, 87u8, 65u8, 68u8],
        WadKind::PWAD => seq![80u8, 87u8, 65u8, 68u8],
    }
}

/// The name of a WAD kind, as the header spells it.
pub open spec fn kind_name(kind: WadKind) -> Seq<char> {
    match kind {
        WadKind::IWAD => seq!['I', 'W', 'A', 'D'],
        WadKind::PWAD => seq!['P', 'W', 'A', 'D'],
    }
}

/// The little-endian `u32` at `start` in `s`.
pub open spec fn u32_at(s: Seq<u8>, start: int) -> int {
    le_u32(s[start], s[start + 1], s[start + 2], s[start + 3])
}

/// The text that bytes encode in UTF-8, or `None` where they are not valid UTF-8.
pub uninterp spec fn utf8_text(b: Seq<u8>) -> Option<Seq<char>>;

/// `std::str::from_utf8`, the result owned: the text, or `None` for bytes
/// that are not valid UTF-8.
#[verifier::external_body]
fn utf8_to_string(b: &[u8]) -> (r: Option<String>)
    ensures
        match r {
            Some(s) => utf8_text(b@) == Some(s@),
            None => utf8_text(b@) is None,
        },
{
    match std::str::from_utf8(b) {
        Ok(s) => Some(s.to_string()),
        Err(_) => None,
    }
}

/// A byte that may stand in a lump name.
pub open spec fn name_byte_ok(b: u8) -> bool {
    32 < b < 127
}

/// Every byte of the lump name stored in `s` (up to the first null byte) is printable ASCII.
pub open spec fn lump_name_ok(s: Seq<u8>) -> bool {
    forall|i: int| 0 <= i < name_len(s) ==> #[trigger] name_byte_ok(s[i])
}

/// The lump name stored in `s`, as text.
pub open spec fn lump_name_text(s: Seq<u8>) -> Seq<char> {
    s.take(name_len(s)).map_values(|b: u8| b as char)
}

pub struct LumpData {
    pub name: String,
    pub bytes: Bytes,
}

impl LumpData {
    /// A lump with the name stored in `name_bytes` (up to the first null byte),
    /// refused where the name holds a byte that is not printable ASCII.
    pub fn new(name_bytes: &[u8], bytes: Bytes, idx: usize) -> (r: Result<Self, String>)
        ensures
            match r {
                Ok(l) => lump_name_ok(name_bytes@) && l.name@ == lump_name_text(name_bytes@)
                    && bytes_view(l.bytes) == bytes_view(bytes),
                Err(e) => !lump_name_ok(name_bytes@) && e@ == "Invalid lump name at index "@
                    + decimal(idx as nat),
            },
    {
        let s = Ghost(name_bytes@);
        proof {
            lemma_name_end_bounds(s@, 0);
        }
        let mut chars: Vec<char> = Vec::new();
        let mut i: usize = 0;
        while i < name_bytes.len()
            invariant_except_break
                i <= name_bytes@.len(),
                s@ == name_bytes@,
                name_end_from(s@, i as int) == name_len(s@),
                forall|j: int| 0 <= j < i ==> #[trigger] name_byte_ok(s@[j]),
                chars@ == s@.take(i as int).map_values(|b: u8| b as char),
            ensures
                i <= name_bytes@.len(),
                name_len(s@) == i,
                forall|j: int| 0 <= j < i ==> #[trigger] name_byte_ok(s@[j]),
                chars@ == s@.take(i as int).map_values(|b: u8| b as char),
            decreases name_bytes.len() - i,
        {
            let ch = name_bytes[i];
            if ch == 0 {
                break;
            } else if ch <= 32 || ch >= 127 {
                proof {
                    lemma_name_end_bounds(s@, i as int + 1);
                    assert(!name_byte_ok(s@[i as int]));
                }
                let msg = String::from_str("Invalid lump name at index ");
                return Err(joined(msg, decimal_string(idx as u64).as_str()));
            }
            chars.push(ch as char);
            proof {
                assert(s@.take(i as int + 1) == s@.take(i as int).push(ch));
            }
            i = i + 1;
        }
        Ok(LumpData { name: chars_to_string(chars), bytes })
    }
}

/// The message for a WAD file whose header is refused.
pub open spec fn header_error(wad_path: Seq<char>, file: Seq<u8>, kind: WadKind) -> Seq<char> {
    if file.len() <= 12 {
        "WAD file "@ + wad_path + " is too small"@
    } else {
        match utf8_text(file.subrange(0, 4)) {
            None => "Invalid WAD header"@,
            Some(t) => "Invalid WAD type: expected "@ + kind_name(kind) + ", was "@ + t,
        }
    }
}

/// Stores all the bytes from a WAD file.
/// Also provides raw access to the WAD directory and lumps.
pub struct WadData {
    lump_count: usize,
    dir_offset: usize,
    wad_bytes: Bytes,
}

impl WadData {
    /// The number of lumps, as the header gives it.
    pub closed spec fn spec_lump_count(&self) -> nat {
        self.lump_count as nat
    }

    /// Where the directory starts, as the header gives it.
    pub closed spec fn spec_dir_offset(&self) -> nat {
        self.dir_offset as nat
    }

    /// All the bytes of the WAD file.
    pub closed spec fn spec_bytes(&self) -> Seq<u8> {
        bytes_view(self.wad_bytes)
    }

    /// The WAD read from the bytes of the file at `wad_path`: its header must
    /// name the expected kind.
    pub fn from_file_bytes(wad_path: &str, file_bytes: Vec<u8>, expected_kind: WadKind) -> (r: Result<WadData, String>)
        ensures
            match r {
                Ok(w) => file_bytes@.len() > 12 && file_bytes@.subrange(0, 4) == kind_tag(expected_kind)
                    && w.spec_bytes() == file_bytes@ && w.spec_lump_count() == u32_at(file_bytes@, 4)
                    && w.spec_dir_offset() == u32_at(file_bytes@, 8),
                Err(e) => !(file_bytes@.len() > 12 && file_bytes@.subrange(0, 4) == kind_tag(expected_kind))
                    && e@ == header_error(wad_path@, file_bytes@, expected_kind),
            },
    {
        let wad_bytes = bytes_from_vec(file_bytes);
        let bytes = bytes_as_slice(&wad_bytes);
        if bytes.len() <= 12 {
            let msg = joined(String::from_str("WAD file "), wad_path);
            return Err(joined(msg, " is too small"));
        }
        let tag = sub_slice(bytes, 0, 4);
        let lump_count = buf_to_u32(sub_slice(bytes, 4, 8)) as usize;
        let dir_offset = buf_to_u32(sub_slice(bytes, 8, 12)) as usize;
        let (t0, t1, t2, t3): (u8, u8, u8, u8) = match expected_kind {
            WadKind::IWAD => (73, 87, 65, 68),
            WadKind::PWAD => (80, 87, 65, 68),
        };
        if tag[0] == t0 && tag[1] == t1 && tag[2] == t2 && tag[3] == t3 {
            assert(tag@ == kind_tag(expected_kind));
            Ok(WadData { lump_count, dir_offset, wad_bytes })
        } else {
            assert(tag@ != kind_tag(expected_kind));
            match utf8_to_string(tag) {
                None => Err(String::from_str("Invalid WAD header")),
                Some(text) => {
                    let expected = match expected_kind {
                        WadKind::IWAD => "IWAD",
                        WadKind::PWAD => "PWAD",
                    };
                    proof {
                        reveal_strlit("IWAD");
                        reveal_strlit("PWAD");
                    }
                    let msg = joined(String::from_str("Invalid WAD type: expected "), expected);
                    let msg = joined(msg, ", was ");
                    Err(joined(msg, text.as_str()))
                },
            }
        }
    }

    /// Where directory entry `idx` starts.
    pub open spec fn entry_offset(&self, idx: int) -> int {
        self.spec_dir_offset() + 16 * idx
    }

    /// Where lump `idx` starts, as its directory entry gives it.
    pub open spec fn lump_start(&self, idx: int) -> int {
        u32_at(self.spec_bytes(), self.entry_offset(idx))
    }

    /// The size of lump `idx`, as its directory entry gives it.
    pub open spec fn lump_size(&self, idx: int) -> int {
        u32_at(self.spec_bytes(), self.entry_offset(idx) + 4)
    }

    /// The 8 name bytes of directory entry `idx`.
    pub open spec fn lump_name_bytes(&self, idx: int) -> Seq<u8> {
        self.spec_bytes().subrange(self.entry_offset(idx) + 8, self.entry_offset(idx) + 16)
    }

    /// The message for a lump that cannot be read.
    pub open spec fn lump_error(&self, idx: int) -> Seq<char> {
        if idx >= self.spec_lump_count() {
            "Invalid lump index: "@ + decimal(idx as nat) + " >= count "@ + decimal(
                self.spec_lump_count(),
            ) + " "@
        } else if self.lump_start(idx) + self.lump_size(idx) >= self.spec_bytes().len() {
            "Lump too big: offs "@ + decimal(self.lump_start(idx) as nat) + " + size "@ + decimal(
                self.lump_size(idx) as nat,
            ) + " >= wad len "@ + decimal(self.spec_bytes().len()) + " "@
        } else {
            "Invalid lump name at index "@ + decimal(idx as nat)
        }
    }

    /// Lump `idx` can be read: it is listed, it ends before the end of the
    /// file, and its name is printable ASCII.
    pub open spec fn lump_ok(&self, idx: int) -> bool {
        &&& idx < self.spec_lump_count()
        &&& self.lump_start(idx) + self.lump_size(idx) < self.spec_bytes().len()
        &&& lump_name_ok(self.lump_name_bytes(idx))
    }

    /// Lump `lump_idx`: its name and its bytes, read through the directory.
    pub fn get_lump(&self, lump_idx: usize) -> (r: Result<LumpData, String>)
        requires
            lump_idx < self.spec_lump_count() ==> self.entry_offset(lump_idx as int) + 16
                <= self.spec_bytes().len(),
        ensures
            match r {
                Ok(l) => self.lump_ok(lump_idx as int) && l.name@ == lump_name_text(
                    self.lump_name_bytes(lump_idx as int),
                ) && bytes_view(l.bytes) == self.spec_bytes().subrange(
                    self.lump_start(lump_idx as int),
                    self.lump_start(lump_idx as int) + self.lump_size(lump_idx as int),
                ),
                Err(e) => !self.lump_ok(lump_idx as int) && e@ == self.lump_error(lump_idx as int),
            },
    {
        if lump_idx >= self.lump_count {
            let msg = joined(String::from_str("Invalid lump index: "), decimal_string(lump_idx as u64).as_str());
            let msg = joined(msg, " >= count ");
            let msg = joined(msg, decimal_string(self.lump_count as u64).as_str());
            return Err(joined(msg, " "));
        }
        let bytes = bytes_as_slice(&self.wad_bytes);
        let wad_len = bytes.len();
        let offs = self.dir_offset + 16 * lump_idx;
        let lump_start = buf_to_u32(sub_slice(bytes, offs, offs + 4));
        let lump_size = buf_to_u32(sub_slice(bytes, offs + 4, offs + 8));
        if lump_start as u64 + lump_size as u64 >= wad_len as u64 {
            let msg = joined(String::from_str("Lump too big: offs "), decimal_string(lump_start as u64).as_str());
            let msg = joined(msg, " + size ");
            let msg = joined(msg, decimal_string(lump_size as u64).as_str());
            let msg = joined(msg, " >= wad len ");
            let msg = joined(msg, decimal_string(wad_len as u64).as_str());
            return Err(joined(msg, " "));
        }
        let lump_start = lump_start as usize;
        let lump_end = lump_start + lump_size as usize;
        let name_bytes = sub_slice(bytes, offs + 8, offs + 16);
        let lump = bytes_slice(&self.wad_bytes, lump_start, lump_end);
        LumpData::new(name_bytes, lump, lump_idx)
    }

    pub fn get_lump_count(&self) -> (n: usize)
        ensures
            n == self.spec_lump_count(),
    {
        self.lump_count
    }

    /// The whole directory lies within the file (each entry takes 16 bytes).
    pub fn directory_in_bounds(&self) -> (b: bool)
        ensures
            b == (self.spec_dir_offset() + 16 * self.spec_lump_count() <= self.spec_bytes().len()),
    {
        let len = bytes_len(&self.wad_bytes);
        self.lump_count <= usize::MAX / 16 && self.dir_offset <= len && 16 * self.lump_count <= len
            - self.dir_offset
    }
}

} // verus!
