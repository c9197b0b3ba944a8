//! Little-endian numbers, lump names and decimal numbers, as found in WAD files.
use crate::text::chars_to_string;
use vstd::prelude::*;
use vstd::string::StringSliceAdditionalSpecFns;

verus! {

/// The little-endian 16 bit number made of two bytes.
pub open spec fn le_u16(b0: u8, b1: u8) -> int {
    b0 as int + 256 * (b1 as int)
}

/// The little-endian 32 bit number made of four bytes.
pub open spec fn le_u32(b0: u8, b1: u8, b2: u8, b3: u8) -> int {
    b0 as int + 256 * (b1 as int) + 65536 * (b2 as int) + 16777216 * (b3 as int)
}

/// The two's complement reading of a 16 bit number.
pub open spec fn as_signed16(u: int) -> int {
    if u < 0x8000 {
        u
    } else {
        u - 0x10000
    }
}

/// Reads a little-endian `u16` from the first two bytes.
pub fn buf_to_u16(buf: &[u8]) -> (r: u16)
    requires
        buf@.len() >= 2,
    ensures
        r as int == le_u16(buf@[0], buf@[1]),
{
    let b0 = buf[0];
    let b1 = buf[1];
    let r = (b0 as u16) | ((b1 as u16) << 8);
    assert(r == b0 as int + 256 * (b1 as int)) by (bit_vector)
        requires
            r == (b0 as u16) | ((b1 as u16) << 8u16),
    ;
    r
}

/// Reads a little-endian `i16` from the first two bytes.
pub fn buf_to_i16(buf: &[u8]) -> (r: i16)
    requires
        buf@.len() >= 2,
    ensures
        r as int == as_signed16(le_u16(buf@[0], buf@[1])),
{
    let u = buf_to_u16(buf);
    let r = u as i16;
    assert(r as int == if u < 0x8000 {
        u as int
    } else {
        u as int - 0x10000
    }) by (bit_vector)
        requires
            r == u as i16,
    ;
    r
}

/// Reads a little-endian `u32` from the first four bytes.
pub fn buf_to_u32(buf: &[u8]) -> (r: u32)
    requires
        buf@.len() >= 4,
    ensures
        r as int == le_u32(buf@[0], buf@[1], buf@[2], buf@[3]),
{
    let b0 = buf[0];
    let b1 = buf[1];
    let b2 = buf[2];
    let b3 = buf[3];
    let r = (b0 as u32) | ((b1 as u32) << 8) | ((b2 as u32) << 16) | ((b3 as u32) << 24);
    assert(r == b0 as int + 256 * (b1 as int) + 65536 * (b2 as int) + 16777216 * (b3 as int))
        by (bit_vector)
        requires
            r == (b0 as u32) | ((b1 as u32) << 8u32) | ((b2 as u32) << 16u32) | ((b3 as u32)
                << 24u32),
    ;
    r
}

/// The length of a lump name stored in `s`, counted from `i`: it ends at the
/// first null byte or at the end of the bytes.
pub open spec fn name_end_from(s: Seq<u8>, i: int) -> int
    decreases s.len() - i,
{
    if i < 0 || i >= s.len() || s[i] == 0 {
        if i < 0 {
            0
        } else {
            i
        }
    } else {
        name_end_from(s, i + 1)
    }
}

/// The length of the lump name stored in `s` (the bytes before the first null byte).
pub open spec fn name_len(s: Seq<u8>) -> int {
    name_end_from(s, 0)
}

/// The hash of a lump name: each byte gives its lower 6 bits, most significant
/// first, in a 64 bit number (the oldest bits fall out past 10 bytes).
pub open spec fn lump_hash(s: Seq<u8>) -> u64
    decreases s.len(),
{
    if s.len() == 0 {
        0
    } else {
        (((lump_hash(s.drop_last()) as int * 64) % 0x1_0000_0000_0000_0000) + (s.last() % 64) as int) as u64
    }
}

pub(crate) proof fn lemma_name_end_bounds(s: Seq<u8>, i: int)
    requires
        0 <= i <= s.len(),
    ensures
        i <= name_end_from(s, i) <= s.len(),
    decreases s.len() - i,
{
    if i < s.len() && s[i] != 0 {
        lemma_name_end_bounds(s, i + 1);
    }
}

/// Convert a lump name into a 64 bit integer, for easier use as key in a hashmap.
/// Since lumps should only use digits, upper case letters and a few simbols
/// => they fall into the range 32-95 (0x20-0x5F)
/// => it is safe to pick only the lower 6 bits of each ASCII character (byte).
pub fn hash_lump_name(name: &[u8]) -> (key: u64)
    ensures
        0 <= name_len(name@) <= name@.len(),
        key == lump_hash(name@.take(name_len(name@))),
{
    proof {
        lemma_name_end_bounds(name@, 0);
    }
    let mut key = 0u64;
    let mut i: usize = 0;
    while i < name.len()
        invariant
            i <= name.len(),
            name_end_from(name@, i as int) == name_len(name@),
            key == lump_hash(name@.take(i as int)),
        decreases name.len() - i,
    {
        let b = name[i];
        if b == 0 {
            return key;
        }
        let low = b & 0x3F;
        assert(low == b % 64) by (bit_vector)
            requires
                low == b & 0x3F,
        ;
        let shifted = key << 6;
        assert(shifted == ((key as int * 64) % 0x1_0000_0000_0000_0000) as u64 && shifted
            <= 0xFFFF_FFFF_FFFF_FFC0) by (bit_vector)
            requires
                shifted == key << 6u64,
        ;
        key = shifted + (low as u64);
        proof {
            assert(name@.take(i as int + 1).drop_last() == name@.take(i as int));
        }
        i = i + 1;
    }
    key
}

/// The character a 6 bit digit of a lump hash stands for.
pub open spec fn hash_char(d: int) -> char {
    if d <= 31 {
        (d + 64) as char
    } else {
        d as char
    }
}

/// The lump name a hash stands for: its base-64 digits, most significant first.
pub open spec fn hash_name_chars(key: u64) -> Seq<char>
    decreases key,
{
    if key == 0 {
        Seq::empty()
    } else {
        hash_name_chars(key / 64).push(hash_char(key as int % 64))
    }
}

fn hash_name_vec(key: u64) -> (v: Vec<char>)
    ensures
        v@ == hash_name_chars(key),
    decreases key,
{
    if key == 0 {
        Vec::new()
    } else {
        let mut v = hash_name_vec(key / 64);
        let d = key % 64;
        let c = if d <= 31 {
            ((d + 64) as u8) as char
        } else {
            (d as u8) as char
        };
        v.push(c);
        v
    }
}

/// The opposite of `hash_lump_name`: the name that a hash stands for.
pub fn lump_name_from_hash(key: u64) -> (s: String)
    ensures
        s@ == hash_name_chars(key),
{
    chars_to_string(hash_name_vec(key))
}

/// `64` to the power `n`.
pub open spec fn pow64(n: nat) -> nat
    decreases n,
{
    if n == 0 {
        1
    } else {
        64 * pow64((n - 1) as nat)
    }
}

proof fn lemma_pow64_mono(a: nat, b: nat)
    requires
        a <= b,
    ensures
        pow64(a) <= pow64(b),
    decreases b,
{
    if a < b {
        lemma_pow64_mono(a, (b - 1) as nat);
    }
}

proof fn lemma_hash_digits(s: Seq<u8>)
    requires
        1 <= s.len() <= 10,
        forall|i: int| 0 <= i < s.len() ==> 32 <= #[trigger] s[i] <= 95,
        s[0] != 64,
    ensures
        0 < lump_hash(s) < pow64(s.len()),
        hash_name_chars(lump_hash(s)) == s.map_values(|b: u8| b as char),
    decreases s.len(),
{
    let p = s.drop_last();
    let d = s.last() % 64;
    let h = lump_hash(s);
    if p.len() == 0 {
        assert(h == d);
        assert(d != 0);
        assert(hash_name_chars(h) == hash_name_chars(0).push(hash_char(d as int)));
        assert(hash_name_chars(h) == s.map_values(|b: u8| b as char));
    } else {
        lemma_hash_digits(p);
        let hp = lump_hash(p);
        lemma_pow64_mono(p.len(), 9);
        assert(pow64(9) == 0x40_0000_0000_0000) by {
            reveal_with_fuel(pow64, 10);
        }
        assert(hp * 64 < 0x1_0000_0000_0000_0000);
        assert((hp as int * 64) % 0x1_0000_0000_0000_0000 == hp as int * 64) by {
            vstd::arithmetic::div_mod::lemma_small_mod(
                (hp as int * 64) as nat,
                0x1_0000_0000_0000_0000,
            );
        }
        assert(h == hp * 64 + d);
        vstd::arithmetic::div_mod::lemma_fundamental_div_mod_converse(h as int, 64, hp as int, d as int);
        assert(h / 64 == hp);
        assert(h % 64 == d);
        assert(hash_name_chars(h) == hash_name_chars(hp).push(hash_char(d as int)));
        assert(s.map_values(|b: u8| b as char) == p.map_values(|b: u8| b as char).push(s.last() as char));
    }
}

/// A lump name of one to ten bytes, all in the range 32..=95 that lump names
/// use and not starting with `@`, comes back unchanged from its hash:
/// `lump_name_from_hash(hash_lump_name(name))` is `name`.
pub proof fn lemma_lump_name_roundtrip(name: Seq<u8>)
    requires
        1 <= name.len() <= 10,
        forall|i: int| 0 <= i < name.len() ==> 32 <= #[trigger] name[i] <= 95,
        name[0] != 64,
    ensures
        name_len(name) == name.len(),
        hash_name_chars(lump_hash(name.take(name_len(name)))) == name.map_values(|b: u8| b as char),
{
    lemma_name_end_full(name, 0);
    assert(name.take(name.len() as int) == name);
    lemma_hash_digits(name);
}

pub(crate) proof fn lemma_name_end_full(s: Seq<u8>, i: int)
    requires
        0 <= i <= s.len(),
        forall|j: int| 0 <= j < s.len() ==> #[trigger] s[j] != 0,
    ensures
        name_end_from(s, i) == s.len(),
    decreases s.len() - i,
{
    if i < s.len() {
        lemma_name_end_full(s, i + 1);
    }
}

/// The byte is an ASCII decimal digit.
pub open spec fn is_digit(b: u8) -> bool {
    48 <= b <= 57
}

/// The number written by the decimal digits of `s`.
pub open spec fn decimal_value(s: Seq<u8>) -> int
    decreases s.len(),
{
    if s.len() == 0 {
        0
    } else {
        decimal_value(s.drop_last()) * 10 + (s.last() - 48)
    }
}

/// `atoi` keeps its running total within `u32` while it reads the leading digits.
pub open spec fn atoi_in_range(s: Seq<u8>) -> bool {
    forall|k: int|
        0 <= k < s.len() && (forall|j: int| 0 <= j <= k ==> is_digit(#[trigger] s[j]))
            ==> decimal_value(s.take(k)) * 10 + s[k] <= u32::MAX
}

proof fn lemma_atoi_step(s: Seq<u8>, k: int)
    requires
        atoi_in_range(s),
        0 <= k < s.len(),
        forall|j: int| 0 <= j <= k ==> is_digit(#[trigger] s[j]),
    ensures
        decimal_value(s.take(k)) * 10 + s[k] <= u32::MAX,
        decimal_value(s.take(k + 1)) == decimal_value(s.take(k)) * 10 + (s[k] - 48),
{
    assert(s.take(k + 1).drop_last() == s.take(k));
}

/// The decimal number written by the bytes, or `None` if they hold anything but digits.
#[verifier::rlimit(40)]
pub(crate) fn atoi_bytes(bytes: &[u8]) -> (r: Option<u32>)
    requires
        atoi_in_range(bytes@),
    ensures
        r matches Some(n) ==> n == decimal_value(bytes@),
        r == (if forall|j: int| 0 <= j < bytes@.len() ==> is_digit(#[trigger] bytes@[j]) {
            Some(decimal_value(bytes@) as u32)
        } else {
            None
        }),
{
    let ghost sb = bytes@;
    let mut num = 0u32;
    let mut i: usize = 0;
    while i < bytes.len()
        invariant
            bytes@ == sb,
            atoi_in_range(sb),
            i <= bytes.len(),
            forall|j: int| 0 <= j < i ==> is_digit(#[trigger] sb[j]),
            num == decimal_value(sb.take(i as int)),
        decreases bytes.len() - i,
    {
        let b = bytes[i];
        if b < 48 || b > 57 {
            assert(!is_digit(sb[i as int]));
            assert(!(forall|j: int| 0 <= j < sb.len() ==> is_digit(#[trigger] sb[j])));
            return None;
        }
        proof {
            lemma_atoi_step(sb, i as int);
        }
        num = num * 10 + (b as u32) - 48;
        i = i + 1;
    }
    assert(sb.take(i as int) == sb);
    Some(num)
}

/// Up to three digits always fit: `atoi` keeps within `u32` on them.
pub proof fn lemma_short_atoi_in_range(s: Seq<u8>)
    requires
        s.len() <= 3,
    ensures
        atoi_in_range(s),
        (forall|j: int| 0 <= j < s.len() ==> is_digit(#[trigger] s[j])) ==> decimal_value(s) <= 999,
{
    if forall|j: int| 0 <= j < s.len() ==> is_digit(#[trigger] s[j]) {
        reveal_with_fuel(decimal_value, 4);
        if s.len() >= 1 {
            assert(is_digit(s[0]));
        }
        if s.len() >= 2 {
            assert(is_digit(s[1]));
            assert(s.drop_last().drop_last() == s.take(s.len() - 2));
        }
        if s.len() >= 3 {
            assert(is_digit(s[2]));
        }
    }
    assert forall|k: int|
        0 <= k < s.len() && (forall|j: int| 0 <= j <= k ==> is_digit(#[trigger] s[j])) implies decimal_value(
        s.take(k),
    ) * 10 + s[k] <= u32::MAX by {
        reveal_with_fuel(decimal_value, 3);
        assert(s.take(0) == Seq::<u8>::empty());
        if k >= 1 {
            assert(s.take(1).drop_last() == s.take(0));
            assert(is_digit(s[0]));
        }
        if k >= 2 {
            assert(s.take(2).drop_last() == s.take(1));
            assert(is_digit(s[1]));
        }
    }
}

/// The decimal number written by `s`, or `None` if `s` holds anything but digits.
pub fn atoi(s: &str) -> (r: Option<u32>)
    requires
        atoi_in_range(s.spec_bytes()),
    ensures
        r == (if forall|j: int| 0 <= j < s.spec_bytes().len() ==> is_digit(#[trigger] s.spec_bytes()[j]) {
            Some(decimal_value(s.spec_bytes()) as u32)
        } else {
            None
        }),
{
    atoi_bytes(s.as_bytes())
}

} // verus!
