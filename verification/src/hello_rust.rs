//! Small exercises: users and colors, first words, longest strings, number
//! parsing and lines.
use crate::minigrep::{line_end_from, lines_of, strip_cr};
use crate::text::{chars_of, chars_to_string, joined, decimal, decimal_string, signed_decimal, signed_decimal_string};
use std::num::ParseIntError;
use vstd::prelude::*;
use vstd::utf8::{
    decode_utf8, decode_utf8_split, encode_utf8_decode_utf8, encode_utf8_valid_utf8, is_char_boundary,
    is_char_boundary_iff_not_is_continuation_byte, is_char_boundary_start_end_of_seq, valid_utf8,
};
use vstd::string::{is_ascii, StrSliceExecFns, StringExecFns, StringSliceAdditionalSpecFns};

verus! {

/// A registered user.
#[derive(Debug)]
pub struct User {
    username: String,
    email: String,
    active: bool,
    sign_in_count: u64,
}

impl User {
    pub closed spec fn spec_username(&self) -> Seq<char> {
        self.username@
    }

    pub closed spec fn spec_email(&self) -> Seq<char> {
        self.email@
    }

    pub closed spec fn spec_active(&self) -> bool {
        self.active
    }

    pub closed spec fn spec_sign_in_count(&self) -> u64 {
        self.sign_in_count
    }

    /// A new active user with no email, never signed in.
    pub fn create(name: &str) -> (u: User)
        ensures
            u.spec_username() == name@,
            u.spec_email() == Seq::<char>::empty(),
            u.spec_active(),
            u.spec_sign_in_count() == 0,
    {
        User {
            username: String::from_str(name),
            email: String::new(),
            active: true,
            sign_in_count: 0,
        }
    }

    /// Another user with the given name and no email, with this user's
    /// activity and sign in count.
    pub fn copy(&self, name: &str) -> (u: User)
        ensures
            u.spec_username() == name@,
            u.spec_email() == Seq::<char>::empty(),
            u.spec_active() == self.spec_active(),
            u.spec_sign_in_count() == self.spec_sign_in_count(),
    {
        User {
            username: String::from_str(name),
            email: String::new(),
            active: self.active,
            sign_in_count: self.sign_in_count,
        }
    }

    pub fn update_email(&mut self, new_email: &str)
        ensures
            final(self).spec_email() == new_email@,
            final(self).spec_username() == old(self).spec_username(),
            final(self).spec_active() == old(self).spec_active(),
            final(self).spec_sign_in_count() == old(self).spec_sign_in_count(),
    {
        self.email = String::from_str(new_email);
    }

    pub fn sign_in(&mut self)
        requires
            old(self).spec_sign_in_count() < u64::MAX,
        ensures
            final(self).spec_sign_in_count() == old(self).spec_sign_in_count() + 1,
            final(self).spec_username() == old(self).spec_username(),
            final(self).spec_email() == old(self).spec_email(),
            final(self).spec_active() == old(self).spec_active(),
    {
        self.sign_in_count = self.sign_in_count + 1;
    }

    pub fn activate(&mut self)
        ensures
            final(self).spec_active(),
            final(self).spec_username() == old(self).spec_username(),
            final(self).spec_email() == old(self).spec_email(),
            final(self).spec_sign_in_count() == old(self).spec_sign_in_count(),
    {
        self.active = true;
    }

    pub fn deactivate(&mut self)
        ensures
            !final(self).spec_active(),
            final(self).spec_username() == old(self).spec_username(),
            final(self).spec_email() == old(self).spec_email(),
            final(self).spec_sign_in_count() == old(self).spec_sign_in_count(),
    {
        self.active = false;
    }

    /// The line that describes the user.
    pub fn line(&self) -> (s: String)
        ensures
            s@ == "User("@ + self.spec_username() + " <"@ + self.spec_email() + "> - "@ + (if self.spec_active() {
                "active"@
            } else {
                "inactive"@
            }) + ", sign in count: "@ + decimal(self.spec_sign_in_count() as nat) + ")"@,
    {
        let s = joined(String::from_str("User("), self.username.as_str());
        let s = joined(s, " <");
        let s = joined(s, self.email.as_str());
        let s = joined(s, "> - ");
        let s = joined(s, if self.active {
            "active"
        } else {
            "inactive"
        });
        let s = joined(s, ", sign in count: ");
        let s = joined(s, decimal_string(self.sign_in_count).as_str());
        joined(s, ")")
    }
}

impl Default for User {
    fn default() -> (u: User)
        ensures
            u.spec_username() == Seq::<char>::empty(),
            u.spec_email() == Seq::<char>::empty(),
            !u.spec_active(),
            u.spec_sign_in_count() == 0,
    {
        User { username: String::new(), email: String::new(), active: false, sign_in_count: 0 }
    }
}

/// A color as a tuple struct.
pub struct Color(i32, i32, i32);

impl Color {
    pub closed spec fn spec_rgb(&self) -> (i32, i32, i32) {
        (self.0, self.1, self.2)
    }

    pub fn new(r: i32, g: i32, b: i32) -> (c: Color)
        ensures
            c.spec_rgb() == (r, g, b),
    {
        Color(r, g, b)
    }

    pub fn r(&self) -> (v: i32)
        ensures
            v == self.spec_rgb().0,
    {
        self.0
    }

    pub fn g(&self) -> (v: i32)
        ensures
            v == self.spec_rgb().1,
    {
        self.1
    }

    pub fn b(&self) -> (v: i32)
        ensures
            v == self.spec_rgb().2,
    {
        self.2
    }

    /// The line that describes the color.
    pub fn line(&self) -> (s: String)
        ensures
            s@ == "Color(r:"@ + signed_decimal(self.spec_rgb().0 as int) + ", g:"@ + signed_decimal(
                self.spec_rgb().1 as int,
            ) + ", b:"@ + signed_decimal(self.spec_rgb().2 as int) + ")"@,
    {
        let s = joined(String::from_str("Color(r:"), signed_decimal_string(self.0 as i64).as_str());
        let s = joined(s, ", g:");
        let s = joined(s, signed_decimal_string(self.1 as i64).as_str());
        let s = joined(s, ", b:");
        let s = joined(s, signed_decimal_string(self.2 as i64).as_str());
        joined(s, ")")
    }
}

/// A point in the plane.
pub struct Point {
    pub x: i32,
    pub y: i32,
}

impl Point {
    /// The point as `Display` shows it: `(x, y)`.
    pub fn to_text(&self) -> (s: String)
        ensures
            s@ == "("@ + signed_decimal(self.x as int) + ", "@ + signed_decimal(self.y as int) + ")"@,
    {
        let s = joined(String::from_str("("), signed_decimal_string(self.x as i64).as_str());
        let s = joined(s, ", ");
        let s = joined(s, signed_decimal_string(self.y as i64).as_str());
        joined(s, ")")
    }
}

/// Whether a character is white space, as Unicode's White_Space property says:
/// the controls U+0009 to U+000D, the space, U+0085, the no-break space,
/// U+1680, the spaces U+2000 to U+200A, the line and paragraph separators,
/// U+202F, U+205F and U+3000.
pub open spec fn unicode_white_space(c: char) -> bool {
    let v = c as u32;
    ||| 0x09 <= v <= 0x0d
    ||| v == 0x20
    ||| v == 0x85
    ||| v == 0xa0
    ||| v == 0x1680
    ||| 0x2000 <= v <= 0x200a
    ||| v == 0x2028
    ||| v == 0x2029
    ||| v == 0x202f
    ||| v == 0x205f
    ||| v == 0x3000
}

/// Whether a character is white space (as `char::is_whitespace` says): it
/// has Unicode's White_Space property.
pub(crate) fn is_white(c: char) -> (b: bool)
    ensures
        b == unicode_white_space(c),
{
    let v = c as u32;
    (0x09 <= v && v <= 0x0d) || v == 0x20 || v == 0x85 || v == 0xa0 || v == 0x1680 || (0x2000 <= v && v
        <= 0x200a) || v == 0x2028 || v == 0x2029 || v == 0x202f || v == 0x205f || v == 0x3000
}

/// The position of the first character of `s` at or after `i` that is (or,
/// with `white` false, is not) white space; the length of `s` if none is.
pub open spec fn find_from(s: Seq<char>, i: int, white: bool) -> int
    decreases s.len() - i,
{
    if i < 0 {
        0
    } else if i >= s.len() || unicode_white_space(s[i]) == white {
        i
    } else {
        find_from(s, i + 1, white)
    }
}

/// The first word of `s`: from its first character that is not white space
/// up to the next white space (or the end); empty where there is none.
pub open spec fn first_word_of(s: Seq<char>) -> Seq<char> {
    let start = find_from(s, 0, false);
    if start >= s.len() {
        Seq::empty()
    } else {
        s.subrange(start, find_from(s, start + 1, true))
    }
}

proof fn lemma_find_bounds(s: Seq<char>, i: int, white: bool)
    requires
        0 <= i <= s.len(),
    ensures
        i <= find_from(s, i, white) <= s.len(),
    decreases s.len() - i,
{
    if i < s.len() && unicode_white_space(s[i]) != white {
        lemma_find_bounds(s, i + 1, white);
    }
}

/// The first word of a text: from its first character that is not white
/// space up to the next white space (or the end of the text); empty where
/// there is no word. The word is cut out of the text at the byte positions of
/// those characters.
pub fn _first_word(text: &str) -> (w: &str)
    ensures
        w@ == first_word_of(text@),
{
    let cs = chars_of(text);
    let n = cs.len();
    let ghost s = text@;
    let mut start: usize = 0;
    let mut end: usize = n;
    let mut found_start = false;
    let mut i: usize = 0;
    proof {
        lemma_find_bounds(s, 0, false);
    }
    while i < n
        invariant_except_break
            cs@ == s,
            s == text@,
            n == s.len(),
            i <= n,
            end == n,
            !found_start ==> find_from(s, i as int, false) == find_from(s, 0, false),
            found_start ==> start == find_from(s, 0, false) && start < i && find_from(s, i as int, true)
                == find_from(s, start as int + 1, true),
        ensures
            found_start <==> find_from(s, 0, false) < s.len(),
            found_start ==> start == find_from(s, 0, false) && end == find_from(s, start as int + 1, true),
        decreases n - i,
    {
        let c = cs[i];
        if !found_start {
            if !is_white(c) {
                found_start = true;
                start = i;
            }
        } else {
            if is_white(c) {
                end = i;
                break;
            }
        }
        i = i + 1;
    }
    if found_start {
        proof {
            lemma_find_bounds(s, start as int + 1, true);
        }
        text.substring_char(start, end)
    } else {
        proof {
            reveal_strlit("");
        }
        ""
    }
}

/// The position of the first space in `s` at or after `i`, or its length.
pub open spec fn first_space(s: Seq<u8>, i: int) -> int
    decreases s.len() - i,
{
    if i < 0 {
        0
    } else if i >= s.len() || s[i] == 32 {
        i
    } else {
        first_space(s, i + 1)
    }
}

/// The text `s` split at byte `k`, a character boundary: the characters of
/// the part before it followed by those of the part after it.
proof fn lemma_split_chars(s: &str, a: &str, c: &str, k: int)
    requires
        is_char_boundary(s.spec_bytes(), k),
        a.spec_bytes() == s.spec_bytes().subrange(0, k),
        c.spec_bytes() == s.spec_bytes().subrange(k, s.spec_bytes().len() as int),
    ensures
        s@ == a@ + c@,
        a@ == decode_utf8(s.spec_bytes().subrange(0, k)),
{
    encode_utf8_valid_utf8(s@);
    decode_utf8_split(s.spec_bytes(), k);
    encode_utf8_decode_utf8(s@);
    encode_utf8_decode_utf8(a@);
    encode_utf8_decode_utf8(c@);
}

/// The first word of a text: the text up to its first space (a byte 32),
/// or all of it.
pub fn first_word(s: &str) -> (w: &str)
    ensures
        w.spec_bytes() == s.spec_bytes().take(first_space(s.spec_bytes(), 0)),
        w@ == decode_utf8(s.spec_bytes().take(first_space(s.spec_bytes(), 0))),
        is_ascii(s) ==> w@ == s@.take(first_space(s.spec_bytes(), 0)),
{
    let bytes = s.as_bytes();
    let ghost b = bytes@;
    proof {
        encode_utf8_valid_utf8(s@);
        is_char_boundary_start_end_of_seq(b);
    }
    let mut i: usize = 0;
    while i < bytes.len()
        invariant
            b == bytes@,
            b == s.spec_bytes(),
            valid_utf8(b),
            i <= b.len(),
            first_space(b, i as int) == first_space(b, 0),
        decreases bytes.len() - i,
    {
        if bytes[i] == 32 {
            proof {
                is_char_boundary_iff_not_is_continuation_byte(b, i as int);
            }
            let (w, rest) = s.split_at(i);
            proof {
                lemma_split_chars(s, w, rest, i as int);
                lemma_ascii_prefix(s, w, rest);
            }
            return w;
        }
        i = i + 1;
    }
    proof {
        assert(b.take(b.len() as int) == b);
        encode_utf8_decode_utf8(s@);
        if is_ascii(s) {
            vstd::string::is_ascii_spec_bytes(s);
        }
    }
    s
}

/// A prefix of an ASCII text is as long in characters as in bytes.
proof fn lemma_ascii_prefix(s: &str, a: &str, c: &str)
    requires
        s@ == a@ + c@,
    ensures
        is_ascii(s) ==> is_ascii(a) && a@.len() == a.spec_bytes().len() && a@ == s@.take(a.spec_bytes().len() as int),
{
    if is_ascii(s) {
        vstd::string::is_ascii_concat(s, a, c);
        vstd::string::is_ascii_spec_bytes(a);
        assert(a@ == s@.take(a@.len() as int));
    }
}

/// The longer of two strings by their length in bytes; the second where they are as long.
pub fn longest<'a>(x: &'a str, y: &'a str) -> (r: &'a str)
    ensures
        r == if x.len() > y.len() {
            x
        } else {
            y
        },
{
    if x.len() > y.len() {
        x
    } else {
        y
    }
}

/// The value of a sequence of decimal digits.
pub open spec fn digits_value(s: Seq<char>) -> int
    decreases s.len(),
{
    if s.len() == 0 {
        0
    } else {
        digits_value(s.drop_last()) * 10 + (s.last() as int - 48)
    }
}

/// The number an integer text writes: an optional `+` or `-`, then one or
/// more decimal digits and nothing else.
pub open spec fn int_text_value(s: Seq<char>) -> Option<int> {
    let signed = s.len() > 0 && (s[0] == '-' || s[0] == '+');
    let digits = if signed {
        s.skip(1)
    } else {
        s
    };
    if digits.len() > 0 && (forall|i: int| 0 <= i < digits.len() ==> '0' <= #[trigger] digits[i] <= '9') {
        Some(if s[0] == '-' {
            -digits_value(digits)
        } else {
            digits_value(digits)
        })
    } else {
        None
    }
}

/// What `str::parse::<i32>` gives: the number the text writes, where it fits.
pub open spec fn parsed_i32(s: Seq<char>) -> Option<i32> {
    match int_text_value(s) {
        Some(v) => if i32::MIN <= v <= i32::MAX {
            Some(v as i32)
        } else {
            None
        },
        None => None,
    }
}

#[verifier::external_type_specification]
#[verifier::external_body]
pub struct ExParseIntError(ParseIntError);

/// `str::parse::<i32>`: the number, or an error for text that does not
/// write an `i32`.
#[verifier::external_body]
pub(crate) fn parse_i32(s: &str) -> (r: Result<i32, ParseIntError>)
    ensures
        match r {
            Ok(v) => parsed_i32(s@) == Some(v),
            Err(_) => parsed_i32(s@) is None,
        },
{
    s.parse::<i32>()
}

/// The sum of the numbers two texts write; the error of the first that does
/// not write an `i32`.
pub fn question_mark_operator(x: &str, y: &str) -> (r: Result<i32, ParseIntError>)
    requires
        parsed_i32(x@) is Some && parsed_i32(y@) is Some ==> i32::MIN <= parsed_i32(x@)->0
            + parsed_i32(y@)->0 <= i32::MAX,
    ensures
        match r {
            Ok(v) => parsed_i32(x@) is Some && parsed_i32(y@) is Some && v == parsed_i32(x@)->0
                + parsed_i32(y@)->0,
            Err(_) => parsed_i32(x@) is None || parsed_i32(y@) is None,
        },
{
    let parsed1 = parse_i32(x)?;
    let parsed2 = parse_i32(y)?;
    Ok(parsed1 + parsed2)
}

/// The last character of the first line of `text`, if it has one.
pub fn last_char_of_first_line(text: &str) -> (c: Option<char>)
    ensures
        c == if text@.len() == 0 || lines_of(text@)[0].len() == 0 {
            None
        } else {
            Some(lines_of(text@)[0].last())
        },
{
    let cs = chars_of(text);
    let ghost s = text@;
    let n = cs.len();
    if n == 0 {
        return None;
    }
    let mut k: usize = 0;
    while k < n && cs[k] != '\n'
        invariant
            cs@ == s,
            n == s.len(),
            k <= n,
            line_end_from(s, k as int) == line_end_from(s, 0),
        decreases n - k,
    {
        k = k + 1;
    }
    proof {
        crate::minigrep::lemma_line_end_bounds(s, 0);
        assert(line_end_from(s, 0) == k);
        if k < n {
            assert(lines_of(s)[0] == strip_cr(s.take(k as int)));
        } else {
            assert(lines_of(s)[0] == s);
        }
    }
    let mut end = k;
    if k < n && k > 0 && cs[k - 1] == '\r' {
        end = k - 1;
    }
    if end == 0 {
        None
    } else {
        proof {
            if k < n {
                assert(strip_cr(s.take(k as int)).last() == s[end - 1]);
            }
        }
        Some(cs[end - 1])
    }
}

/// Nothing to compute: the unit value.
pub fn _abc() -> (r: ())
    ensures
        r == (),
{
    ()
}

/// The sum of the numbers, and the line that lists them with it.
pub fn sum_and_describe(arr: &[i32]) -> (r: (String, i32))
    requires
        forall|k: int| 0 <= k <= arr@.len() ==> i32::MIN <= #[trigger] sum_of(arr@.take(k)) <= i32::MAX,
    ensures
        r.1 == sum_of(arr@),
        r.0@ == "Array has "@ + decimal(arr@.len()) + " elements: "@ + listed(arr@, 0) + " ] => sum is "@
            + signed_decimal(sum_of(arr@)),
{
    let mut line = joined(String::from_str("Array has "), decimal_string(arr.len() as u64).as_str());
    line = joined(line, " elements: ");
    let mut sum: i32 = 0;
    let mut i: usize = 0;
    while i < arr.len()
        invariant
            i <= arr@.len(),
            forall|k: int| 0 <= k <= arr@.len() ==> i32::MIN <= #[trigger] sum_of(arr@.take(k)) <= i32::MAX,
            sum == sum_of(arr@.take(i as int)),
            line@ + listed(arr@, i as int) == "Array has "@ + decimal(arr@.len()) + " elements: "@
                + listed(arr@, 0),
        decreases arr.len() - i,
    {
        let sep = if i == 0 {
            "["
        } else {
            ", "
        };
        let piece = joined(String::from_str(sep), signed_decimal_string(arr[i] as i64).as_str());
        proof {
            assert(arr@.take(i as int + 1).drop_last() == arr@.take(i as int));
            assert(sum_of(arr@.take(i as int + 1)) == sum + arr@[i as int]);
            assert(listed(arr@, i as int) == piece@ + listed(arr@, i as int + 1));
        }
        let ghost before = line@;
        line = joined(line, piece.as_str());
        assert(line@ + listed(arr@, i as int + 1) == before + listed(arr@, i as int)) by {
            assert(line@ + listed(arr@, i as int + 1) == before + (piece@ + listed(arr@, i as int + 1)));
        }
        sum = sum + arr[i];
        i = i + 1;
    }
    assert(arr@.take(i as int) == arr@);
    assert(listed(arr@, i as int) == Seq::<char>::empty());
    line = joined(line, " ] => sum is ");
    line = joined(line, signed_decimal_string(sum as i64).as_str());
    (line, sum)
}

/// The sum of the numbers.
pub open spec fn sum_of(s: Seq<i32>) -> int
    decreases s.len(),
{
    if s.len() == 0 {
        0
    } else {
        sum_of(s.drop_last()) + s.last()
    }
}

/// The numbers from position `i` on, each after `[` (the first) or `, `.
pub open spec fn listed(s: Seq<i32>, i: int) -> Seq<char>
    decreases s.len() - i,
{
    if i < 0 || i >= s.len() {
        Seq::empty()
    } else {
        (if i == 0 {
            "["@
        } else {
            ", "@
        }) + signed_decimal(s[i] as int) + listed(s, i + 1)
    }
}

/// The line that tells whether an optional text holds some data.
pub fn check_option(option: &Option<String>) -> (s: String)
    ensures
        s@ == match option {
            Some(text) => "We got some data: "@ + text@,
            None => "We got NO data!"@,
        },
{
    match option {
        Some(text) => joined(String::from_str("We got some data: "), text.as_str()),
        None => String::from_str("We got NO data!"),
    }
}

/// The line that tells whether a result is a success or a failure.
pub fn check_result(result: &Result<i32, String>) -> (s: String)
    ensures
        s@ == match result {
            Ok(ok) => "Result is OK: "@ + signed_decimal(*ok as int),
            Err(err) => "Result is FAILURE: "@ + err@,
        },
{
    match result {
        Ok(ok) => joined(String::from_str("Result is OK: "), signed_decimal_string(*ok as i64).as_str()),
        Err(err) => joined(String::from_str("Result is FAILURE: "), err.as_str()),
    }
}

/// The line that places a number below 5, in `[5, 50)` or from 50 on.
pub fn control_flow_line(number: i32) -> (s: String)
    ensures
        s@ == signed_decimal(number as int) + if number < 5 {
            " < 5"@
        } else if number < 50 {
            " in range [5, 50)"@
        } else {
            " >= 50"@
        },
{
    let n = signed_decimal_string(number as i64);
    if number < 5 {
        joined(n, " < 5")
    } else if number < 50 {
        joined(n, " in range [5, 50)")
    } else {
        joined(n, " >= 50")
    }
}


/// Splitting a text at white space, character by character: the words
/// found so far, and the word being read.
pub open spec fn split_state(s: Seq<char>) -> (Seq<Seq<char>>, Seq<char>)
    decreases s.len(),
{
    if s.len() == 0 {
        (Seq::empty(), Seq::empty())
    } else {
        let (ws, cur) = split_state(s.drop_last());
        if unicode_white_space(s.last()) {
            if cur.len() > 0 {
                (ws.push(cur), Seq::empty())
            } else {
                (ws, cur)
            }
        } else {
            (ws, cur.push(s.last()))
        }
    }
}

/// The words of `s` (as `str::split_whitespace` gives them): its maximal
/// runs of characters that are not white space, in order.
pub open spec fn words_of(s: Seq<char>) -> Seq<Seq<char>> {
    let (ws, cur) = split_state(s);
    if cur.len() > 0 {
        ws.push(cur)
    } else {
        ws
    }
}

/// The first position at or after `i` of the entry for `w` in a tally, or
/// the tally's length.
pub open spec fn tally_pos(t: Seq<(Seq<char>, nat)>, w: Seq<char>, i: int) -> int
    decreases t.len() - i,
{
    if i < 0 || i >= t.len() {
        t.len() as int
    } else if t[i].0 == w {
        i
    } else {
        tally_pos(t, w, i + 1)
    }
}

/// Counts one more occurrence of `w`: its entry goes up by one, or a new
/// entry with count 1 is added at the end.
pub open spec fn tally_add(t: Seq<(Seq<char>, nat)>, w: Seq<char>) -> Seq<(Seq<char>, nat)> {
    let p = tally_pos(t, w, 0);
    if p < t.len() {
        t.update(p, (w, t[p].1 + 1))
    } else {
        t.push((w, 1nat))
    }
}

/// The words with their counts, in the order in which each first occurs.
pub open spec fn tally(ws: Seq<Seq<char>>) -> Seq<(Seq<char>, nat)>
    decreases ws.len(),
{
    if ws.len() == 0 {
        Seq::empty()
    } else {
        tally_add(tally(ws.drop_last()), ws.last())
    }
}

/// How many times `w` occurs in `ws`.
pub open spec fn occurrences(ws: Seq<Seq<char>>, w: Seq<char>) -> nat
    decreases ws.len(),
{
    if ws.len() == 0 {
        0
    } else {
        occurrences(ws.drop_last(), w) + if ws.last() == w {
            1nat
        } else {
            0
        }
    }
}

proof fn lemma_tally_pos(t: Seq<(Seq<char>, nat)>, w: Seq<char>, i: int)
    requires
        0 <= i <= t.len(),
    ensures
        i <= tally_pos(t, w, i) <= t.len(),
        tally_pos(t, w, i) < t.len() ==> t[tally_pos(t, w, i)].0 == w,
        forall|j: int| i <= j < tally_pos(t, w, i) ==> t[j].0 != w,
    decreases t.len() - i,
{
    if i < t.len() && t[i].0 != w {
        lemma_tally_pos(t, w, i + 1);
    }
}

/// A tally counts every word as often as it occurs, holds each word once,
/// and holds every word that occurs.
pub proof fn lemma_tally_counts(ws: Seq<Seq<char>>)
    ensures
        forall|i: int| 0 <= i < tally(ws).len() ==> #[trigger] tally(ws)[i].1 == occurrences(ws, tally(ws)[i].0),
        forall|i: int, j: int| 0 <= i < j < tally(ws).len() ==> #[trigger] tally(ws)[i].0 != #[trigger] tally(ws)[j].0,
        forall|w: Seq<char>| occurrences(ws, w) > 0 ==> exists|i: int| 0 <= i < tally(ws).len() && #[trigger] tally(ws)[i].0 == w,
        forall|i: int| 0 <= i < tally(ws).len() ==> #[trigger] tally(ws)[i].1 <= ws.len(),
    decreases ws.len(),
{
    if ws.len() > 0 {
        let pre = ws.drop_last();
        let w = ws.last();
        let t = tally(pre);
        lemma_tally_counts(pre);
        lemma_tally_pos(t, w, 0);
        let p = tally_pos(t, w, 0);
        assert forall|v: Seq<char>| occurrences(ws, v) > 0 implies exists|i: int| 0 <= i < tally(ws).len() && #[trigger] tally(ws)[i].0 == v by {
            if v == w {
                if p < t.len() {
                    assert(tally(ws)[p].0 == v);
                } else {
                    assert(tally(ws)[t.len() as int].0 == v);
                }
            } else {
                assert(occurrences(pre, v) > 0);
                let i = choose|i: int| 0 <= i < t.len() && #[trigger] t[i].0 == v;
                assert(tally(ws)[i].0 == v);
            }
        }
        if p >= t.len() {
            assert(occurrences(pre, w) == 0) by {
                if occurrences(pre, w) > 0 {
                    let i = choose|i: int| 0 <= i < t.len() && #[trigger] t[i].0 == w;
                    assert(t[i].0 != w);
                }
            }
        }
    }
}

/// Appends one more occurrence of `w` to a tally.
fn tally_word(t: &mut Vec<(Vec<char>, usize)>, w: Vec<char>, Ghost(ws): Ghost<Seq<Seq<char>>>)
    requires
        old(t)@.len() == tally(ws).len(),
        forall|i: int| 0 <= i < old(t)@.len() ==> (#[trigger] old(t)@[i]).0@ == tally(ws)[i].0 && old(t)@[i].1 == tally(ws)[i].1,
        ws.len() < usize::MAX,
    ensures
        final(t)@.len() == tally(ws.push(w@)).len(),
        forall|i: int| 0 <= i < final(t)@.len() ==> (#[trigger] final(t)@[i]).0@ == tally(ws.push(w@))[i].0 && final(t)@[i].1 == tally(ws.push(w@))[i].1,
{
    let ghost t0 = tally(ws);
    proof {
        lemma_tally_counts(ws);
        lemma_tally_pos(t0, w@, 0);
        assert(ws.push(w@).drop_last() == ws);
        assert(tally(ws.push(w@)) == tally_add(t0, w@));
    }
    let mut i: usize = 0;
    while i < t.len()
        invariant
            t@ == old(t)@,
            t@.len() == t0.len(),
            forall|k: int| 0 <= k < t@.len() ==> (#[trigger] t@[k]).0@ == t0[k].0 && t@[k].1 == t0[k].1,
            i <= t@.len(),
            forall|k: int| 0 <= k < i ==> #[trigger] t0[k].0 != w@,
            forall|k: int| 0 <= k < t0.len() ==> #[trigger] t0[k].1 <= ws.len(),
            ws.len() < usize::MAX,
            tally(ws.push(w@)) == tally_add(t0, w@),
            i <= tally_pos(t0, w@, 0) <= t0.len(),
            tally_pos(t0, w@, 0) < t0.len() ==> t0[tally_pos(t0, w@, 0)].0 == w@,
        decreases t@.len() - i,
    {
        if same_chars(&t[i].0, &w) {
            let c = t[i].1;
            proof {
                assert(t0[i as int].1 <= ws.len());
                assert(t0[i as int].0 == w@);
                lemma_tally_pos(t0, w@, 0);
                assert(tally_pos(t0, w@, 0) == i);
            }
            let entry = (w, c + 1);
            t.set(i, entry);
            return;
        }
        proof {
            lemma_tally_pos(t0, w@, 0);
            assert(t0[i as int].0 != w@);
        }
        i = i + 1;
    }
    t.push((w, 1));
}

/// `a` and `b` hold the same characters.
fn same_chars(a: &Vec<char>, b: &Vec<char>) -> (r: bool)
    ensures
        r == (a@ == b@),
{
    if a.len() != b.len() {
        return false;
    }
    let mut i: usize = 0;
    while i < a.len()
        invariant
            a@.len() == b@.len(),
            i <= a@.len(),
            a@.take(i as int) == b@.take(i as int),
        decreases a.len() - i,
    {
        if a[i] != b[i] {
            return false;
        }
        assert(a@.take(i as int + 1) == a@.take(i as int).push(a@[i as int]));
        assert(b@.take(i as int + 1) == b@.take(i as int).push(b@[i as int]));
        i = i + 1;
    }
    assert(a@.take(i as int) == a@);
    assert(b@.take(i as int) == b@);
    true
}

proof fn lemma_split_len(s: Seq<char>)
    ensures
        split_state(s).0.len() + (if split_state(s).1.len() > 0 { 1int } else { 0 }) <= s.len(),
    decreases s.len(),
{
    if s.len() > 0 {
        lemma_split_len(s.drop_last());
    }
}

/// Counts the words of a text (split at white space): each distinct word
/// with how many times it occurs, in the order in which each first occurs.
pub fn count_words(text: &str) -> (r: Vec<(String, usize)>)
    ensures
        r@.len() == tally(words_of(text@)).len(),
        forall|i: int| 0 <= i < r@.len() ==> (#[trigger] r@[i]).0@ == tally(words_of(text@))[i].0
            && r@[i].1 == tally(words_of(text@))[i].1,
{
    let chars = chars_of(text);
    let ghost s = text@;
    let mut t: Vec<(Vec<char>, usize)> = Vec::new();
    let mut cur: Vec<char> = Vec::new();
    let mut i: usize = 0;
    while i < chars.len()
        invariant
            chars@ == s,
            i <= s.len(),
            cur@ == split_state(s.take(i as int)).1,
            t@.len() == tally(split_state(s.take(i as int)).0).len(),
            forall|k: int| 0 <= k < t@.len() ==> (#[trigger] t@[k]).0@ == tally(split_state(s.take(i as int)).0)[k].0
                && t@[k].1 == tally(split_state(s.take(i as int)).0)[k].1,
        decreases s.len() - i,
    {
        let c = chars[i];
        let ghost pre = s.take(i as int);
        proof {
            assert(s.take(i as int + 1).drop_last() == pre);
            lemma_split_len(pre);
        }
        if is_white(c) {
            if cur.len() > 0 {
                let w = cur;
                cur = Vec::new();
                tally_word(&mut t, w, Ghost(split_state(pre).0));
            }
        } else {
            cur.push(c);
        }
        i = i + 1;
    }
    proof {
        assert(s.take(i as int) == s);
        lemma_split_len(s);
    }
    if cur.len() > 0 {
        let w = cur;
        tally_word(&mut t, w, Ghost(split_state(s).0));
    }
    let mut r: Vec<(String, usize)> = Vec::new();
    let mut k: usize = 0;
    while k < t.len()
        invariant
            k <= t@.len(),
            r@.len() == k,
            forall|j: int| 0 <= j < k ==> (#[trigger] r@[j]).0@ == t@[j].0@ && r@[j].1 == t@[j].1,
        decreases t@.len() - k,
    {
        let w = t[k].0.clone();
        let n = t[k].1;
        r.push((chars_to_string(w), n));
        k = k + 1;
    }
    r
}

} // verus!
