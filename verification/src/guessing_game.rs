//! Guess the number: a secret between 1 and 100 is drawn, and each line the
//! player types is a guess, answered "too small", "too big" or a win, until
//! the player wins or types `exit` or `quit`.
use crate::hello_rust::{is_white, parse_i32, parsed_i32, unicode_white_space};
use crate::hide_and_seek::random_below;
use crate::text::{chars_of, chars_to_string, decimal, decimal_string, joined, same_text};
use vstd::prelude::*;
use vstd::string::StringExecFns;

verus! {

/// Why a line does not give a guess.
#[derive(Clone, Copy, PartialEq, Eq, Debug, Structural)]
pub enum ReadError {
    /// Not a number between 1 and 100.
    BadNumber,
    /// The player gives up.
    Quit,
}

/// The end of the white space that `s` starts with.
pub open spec fn trim_start(s: Seq<char>) -> int {
    crate::hello_rust::find_from(s, 0, false)
}

/// The end of `s.take(j)` without the white space it ends with.
pub open spec fn trim_end(s: Seq<char>, j: int) -> int
    decreases j,
{
    if j <= 0 || j > s.len() || !unicode_white_space(s[j - 1]) {
        j
    } else {
        trim_end(s, j - 1)
    }
}

/// `s` without leading and trailing white space (`str::trim`).
pub open spec fn trimmed(s: Seq<char>) -> Seq<char> {
    let a = trim_start(s);
    if a >= s.len() {
        Seq::empty()
    } else {
        s.subrange(a, trim_end(s, s.len() as int))
    }
}

/// `c` with an ASCII capital letter turned into its small letter.
pub open spec fn ascii_lower(c: char) -> char {
    if 'A' <= c <= 'Z' {
        ((c as u32) + 32) as char
    } else {
        c
    }
}

/// `s` with its ASCII capital letters turned into small letters.
pub open spec fn ascii_lowered(s: Seq<char>) -> Seq<char> {
    s.map_values(|c: char| ascii_lower(c))
}

/// What an input line gives: the line is trimmed and put in small letters;
/// `exit` and `quit` give up; a number between 1 and 100 is a guess; any
/// other text is a bad number.
pub open spec fn line_reading(line: Seq<char>) -> Result<i32, ReadError> {
    let t = ascii_lowered(trimmed(line));
    if t == "exit"@ || t == "quit"@ {
        Err(ReadError::Quit)
    } else {
        match parsed_i32(t) {
            Some(n) => if 1 <= n <= 100 {
                Ok(n)
            } else {
                Err(ReadError::BadNumber)
            },
            None => Err(ReadError::BadNumber),
        }
    }
}

/// Trims `cs` and puts it in small letters.
fn trim_and_lower(cs: &Vec<char>) -> (t: Vec<char>)
    ensures
        t@ == ascii_lowered(trimmed(cs@)),
{
    let ghost s = cs@;
    let n: usize = cs.len();
    let mut a: usize = 0;
    while a < n && is_white(cs[a])
        invariant
            n == s.len(),
            cs@ == s,
            a <= n,
            crate::hello_rust::find_from(s, a as int, false) == trim_start(s),
        decreases n - a,
    {
        a = a + 1;
    }
    let mut t: Vec<char> = Vec::new();
    if a >= n {
        assert(t@ == ascii_lowered(trimmed(s)));
        return t;
    }
    let mut b: usize = n;
    while b > a && is_white(cs[b - 1])
        invariant
            n == s.len(),
            cs@ == s,
            a < b <= n,
            a == trim_start(s),
            !unicode_white_space(s[a as int]),
            trim_end(s, b as int) == trim_end(s, n as int),
        decreases b,
    {
        b = b - 1;
    }
    let mut i: usize = a;
    while i < b
        invariant
            cs@ == s,
            a <= i <= b <= s.len(),
            t@ == ascii_lowered(s.subrange(a as int, i as int)),
        decreases b - i,
    {
        let c = cs[i];
        let l = if c >= 'A' && c <= 'Z' {
            let u: u32 = c as u32;
            ((u + 32) as u8) as char
        } else {
            c
        };
        t.push(l);
        assert(s.subrange(a as int, i as int + 1) == s.subrange(a as int, i as int).push(c));
        assert(t@ == ascii_lowered(s.subrange(a as int, i as int + 1)));
        i = i + 1;
    }
    t
}

/// Reads a guess from a line the player typed.
pub fn read_guess(line: &str) -> (r: Result<i32, ReadError>)
    ensures
        r == line_reading(line@),
{
    let cs = chars_of(line);
    let t = trim_and_lower(&cs);
    let text = chars_to_string(t);
    if same_text(text.as_str(), "exit") || same_text(text.as_str(), "quit") {
        return Err(ReadError::Quit);
    }
    match parse_i32(text.as_str()) {
        Ok(num) => {
            if num >= 1 && num <= 100 {
                Ok(num)
            } else {
                Err(ReadError::BadNumber)
            }
        },
        Err(_) => Err(ReadError::BadNumber),
    }
}

/// What the game answers to a line.
#[derive(Clone, Copy, PartialEq, Eq, Debug, Structural)]
pub enum Reply {
    /// The line is no number between 1 and 100; it does not count.
    BadNumber,
    /// The guess is below the secret.
    TooSmall,
    /// The guess is above the secret.
    TooBig,
    /// The guess is the secret, found with this many guesses.
    Won(u64),
    /// The player gives up after this many guesses.
    GaveUp(u64),
}

/// The answer to a reading of a line, for a secret and the guesses made so
/// far, and the number of guesses made after it.
pub open spec fn reply_to(secret: i32, guesses: u64, reading: Result<i32, ReadError>) -> (Reply, int) {
    match reading {
        Err(ReadError::BadNumber) => (Reply::BadNumber, guesses as int),
        Err(ReadError::Quit) => (Reply::GaveUp(guesses), guesses as int),
        Ok(n) => (
            if n < secret {
                Reply::TooSmall
            } else if n > secret {
                Reply::TooBig
            } else {
                Reply::Won((guesses + 1) as u64)
            },
            guesses + 1,
        ),
    }
}

/// The game ends with a win or when the player gives up.
pub open spec fn ends_game(r: Reply) -> bool {
    r is Won || r is GaveUp
}

/// The text that answers a reply.
pub open spec fn reply_line(r: Reply) -> Seq<char> {
    match r {
        Reply::BadNumber => "Please type a number between 1 and 100!"@,
        Reply::TooSmall => "Too small!"@,
        Reply::TooBig => "Too big!"@,
        Reply::Won(n) => "You win after ("@ + decimal(n as nat) + ") attempts :)"@,
        Reply::GaveUp(n) => "You gave up after ("@ + decimal(n as nat) + ") attempts :("@,
    }
}

/// A game in progress: the secret and the number of guesses made.
pub struct GuessingGame {
    secret: i32,
    guesses: u64,
}

impl GuessingGame {
    /// The number to guess.
    pub closed spec fn spec_secret(&self) -> i32 {
        self.secret
    }

    /// How many guesses were made.
    pub closed spec fn spec_guesses(&self) -> u64 {
        self.guesses
    }

    /// A game with a random secret between 1 and 100.
    pub fn new() -> (g: Self)
        ensures
            1 <= g.spec_secret() <= 100,
            g.spec_guesses() == 0,
    {
        let r = random_below(100);
        GuessingGame { secret: r as i32 + 1, guesses: 0 }
    }

    /// A game with the given secret.
    pub fn with_secret(secret: i32) -> (g: Self)
        requires
            1 <= secret <= 100,
        ensures
            g.spec_secret() == secret,
            g.spec_guesses() == 0,
    {
        GuessingGame { secret, guesses: 0 }
    }

    /// The prompt for the next guess, numbered.
    pub fn prompt(&self) -> (s: String)
        requires
            self.spec_guesses() < u64::MAX,
        ensures
            s@ == "\n("@ + decimal((self.spec_guesses() + 1) as nat) + ") Please input your guess: "@,
    {
        let s = joined(String::from_str("\n("), decimal_string(self.guesses + 1).as_str());
        joined(s, ") Please input your guess: ")
    }

    /// Answers a line that the player typed.
    pub fn handle_line(&mut self, line: &str) -> (r: Reply)
        requires
            old(self).spec_guesses() < u64::MAX,
        ensures
            (r, final(self).spec_guesses() as int) == reply_to(
                old(self).spec_secret(),
                old(self).spec_guesses(),
                line_reading(line@),
            ),
            final(self).spec_secret() == old(self).spec_secret(),
    {
        match read_guess(line) {
            Err(ReadError::BadNumber) => Reply::BadNumber,
            Err(ReadError::Quit) => Reply::GaveUp(self.guesses),
            Ok(n) => {
                self.guesses = self.guesses + 1;
                if n < self.secret {
                    Reply::TooSmall
                } else if n > self.secret {
                    Reply::TooBig
                } else {
                    Reply::Won(self.guesses)
                }
            },
        }
    }
}

/// Whether a reply ends the game.
pub fn is_final(r: Reply) -> (b: bool)
    ensures
        b == ends_game(r),
{
    match r {
        Reply::Won(_) | Reply::GaveUp(_) => true,
        _ => false,
    }
}

/// The text that answers a reply.
pub fn reply_text(r: Reply) -> (s: String)
    ensures
        s@ == reply_line(r),
{
    match r {
        Reply::BadNumber => String::from_str("Please type a number between 1 and 100!"),
        Reply::TooSmall => String::from_str("Too small!"),
        Reply::TooBig => String::from_str("Too big!"),
        Reply::Won(n) => {
            let s = joined(String::from_str("You win after ("), decimal_string(n).as_str());
            joined(s, ") attempts :)")
        },
        Reply::GaveUp(n) => {
            let s = joined(String::from_str("You gave up after ("), decimal_string(n).as_str());
            joined(s, ") attempts :(")
        },
    }
}

/// A guess ends the game exactly when it is the secret; a bad line does
/// not count as a guess, and giving up reports the guesses made.
pub proof fn lemma_guess_ends_iff_found(secret: i32, guesses: u64, reading: Result<i32, ReadError>)
    requires
        guesses < u64::MAX,
    ensures
        reading is Ok ==> (ends_game(reply_to(secret, guesses, reading).0) <==> reading->Ok_0 == secret),
        reading is Ok ==> reply_to(secret, guesses, reading).1 == guesses + 1,
        reading == Err::<i32, ReadError>(ReadError::BadNumber) ==> reply_to(secret, guesses, reading).1 == guesses
            && !ends_game(reply_to(secret, guesses, reading).0),
        reading == Err::<i32, ReadError>(ReadError::Quit) ==> reply_to(secret, guesses, reading).0 == Reply::GaveUp(guesses),
{
}

} // verus!
