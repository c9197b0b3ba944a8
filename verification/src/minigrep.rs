//! Minigrep: the lines of a text that contain a query.
use crate::text::{chars_of, decimal, decimal_string, joined};
use vstd::prelude::*;
use vstd::string::{StrSliceExecFns, StringExecFns};

verus! {

/// The position of the first `'\n'` in `s` at or after `i`, or the length of `s`.
pub open spec fn line_end_from(s: Seq<char>, i: int) -> int
    decreases s.len() - i,
{
    if i < 0 {
        0
    } else if i >= s.len() || s[i] == '\n' {
        i
    } else {
        line_end_from(s, i + 1)
    }
}

/// A line without the `'\r'` of a `"\r\n"` line ending.
pub open spec fn strip_cr(line: Seq<char>) -> Seq<char> {
    if line.len() > 0 && line.last() == '\r' {
        line.drop_last()
    } else {
        line
    }
}

/// The lines of `s`, as `str::lines` splits them: at `"\n"` or `"\r\n"`, the
/// line endings left out, with no empty line after a final line ending.
pub open spec fn lines_of(s: Seq<char>) -> Seq<Seq<char>>
    decreases s.len(),
{
    if s.len() == 0 {
        Seq::empty()
    } else {
        let k = line_end_from(s, 0);
        proof {
            lemma_line_end_bounds(s, 0);
        }
        if k >= s.len() {
            seq![s]
        } else {
            seq![strip_cr(s.take(k))] + lines_of(s.skip(k + 1))
        }
    }
}

/// `needle` occurs in `hay` (the empty text occurs everywhere).
pub open spec fn has_sub(hay: Seq<char>, needle: Seq<char>) -> bool {
    exists|i: int| 0 <= i <= hay.len() - needle.len() && #[trigger] hay.subrange(i, i + needle.len()) == needle
}

/// The lines among `lines` that contain `query`, in order.
pub open spec fn matching_lines(lines: Seq<Seq<char>>, query: Seq<char>) -> Seq<Seq<char>>
    decreases lines.len(),
{
    if lines.len() == 0 {
        Seq::empty()
    } else {
        let rest = matching_lines(lines.drop_last(), query);
        if has_sub(lines.last(), query) {
            rest.push(lines.last())
        } else {
            rest
        }
    }
}

/// The search keeps exactly the lines that contain the query: each kept line
/// contains it, each line that contains it is kept, and the kept lines come
/// in the order of the text.
pub proof fn lemma_matching_lines_exact(lines: Seq<Seq<char>>, query: Seq<char>)
    ensures
        forall|i: int| 0 <= i < matching_lines(lines, query).len() ==> has_sub(#[trigger] matching_lines(lines, query)[i], query),
        forall|j: int| 0 <= j < lines.len() && has_sub(#[trigger] lines[j], query) ==> matching_lines(lines, query).contains(lines[j]),
        matching_lines(lines, query).len() <= lines.len(),
        matching_lines(lines, query) == lines.filter(|l: Seq<char>| has_sub(l, query)),
    decreases lines.len(),
{
    reveal(Seq::filter);
    if lines.len() > 0 {
        let pre = lines.drop_last();
        lemma_matching_lines_exact(pre, query);
        let m = matching_lines(lines, query);
        let mp = matching_lines(pre, query);
        assert forall|j: int| 0 <= j < lines.len() && has_sub(#[trigger] lines[j], query) implies m.contains(lines[j]) by {
            if j < lines.len() - 1 {
                assert(pre[j] == lines[j]);
                assert(mp.contains(pre[j]));
                let k = choose|k: int| 0 <= k < mp.len() && mp[k] == pre[j];
                assert(m[k] == lines[j]);
            } else {
                assert(m[mp.len() as int] == lines[j]);
            }
        }
    }
}

/// The program configuration: what to look for, and where.
pub struct Config {
    query: String,
    file_path: String,
}

impl Config {
    pub closed spec fn spec_query(&self) -> Seq<char> {
        self.query@
    }

    pub closed spec fn spec_file_path(&self) -> Seq<char> {
        self.file_path@
    }

    /// The configuration from the command line arguments: the query, then the
    /// file path, after the program name.
    pub fn build(args: &[String]) -> (r: Result<Config, &'static str>)
        ensures
            args@.len() < 3 <==> r is Err,
            r matches Err(e) ==> e@ == "not enough arguments"@,
            r matches Ok(c) ==> c.spec_query() == args@[1]@ && c.spec_file_path() == args@[2]@,
    {
        if args.len() < 3 {
            Err("not enough arguments")
        } else {
            let query = args[1].clone();
            let file_path = args[2].clone();
            Ok(Config { query, file_path })
        }
    }

    pub fn query(&self) -> (q: &str)
        ensures
            q@ == self.spec_query(),
    {
        self.query.as_str()
    }

    pub fn file_path(&self) -> (p: &str)
        ensures
            p@ == self.spec_file_path(),
    {
        self.file_path.as_str()
    }
}

/// `needle` occurs in `hay` at position `i`.
fn occurs_at(hay: &Vec<char>, lo: usize, hi: usize, needle: &Vec<char>, i: usize) -> (b: bool)
    requires
        lo <= i,
        i + needle@.len() <= hi <= hay@.len(),
    ensures
        b == (hay@.subrange(lo as int, hi as int).subrange(
            i - lo,
            i - lo + needle@.len(),
        ) == needle@),
{
    let ghost line = hay@.subrange(lo as int, hi as int);
    let mut j: usize = 0;
    while j < needle.len()
        invariant
            j <= needle@.len(),
            lo <= i,
            i + needle@.len() <= hi <= hay@.len(),
            line == hay@.subrange(lo as int, hi as int),
            forall|k: int| 0 <= k < j ==> hay@[i + k] == needle@[k],
        decreases needle@.len() - j,
    {
        if hay[i + j] != needle[j] {
            assert(line.subrange(i - lo, i - lo + needle@.len())[j as int] != needle@[j as int]);
            return false;
        }
        j = j + 1;
    }
    assert(line.subrange(i - lo, i - lo + needle@.len()) =~= needle@);
    true
}

/// `needle` occurs in `hay[lo..hi]`.
fn line_contains(hay: &Vec<char>, lo: usize, hi: usize, needle: &Vec<char>) -> (b: bool)
    requires
        lo <= hi <= hay@.len(),
    ensures
        b == has_sub(hay@.subrange(lo as int, hi as int), needle@),
{
    let ghost line = hay@.subrange(lo as int, hi as int);
    if needle.len() > hi - lo {
        return false;
    }
    let last = hi - needle.len();
    let mut i: usize = lo;
    loop
        invariant
            lo <= i <= last,
            last + needle@.len() == hi,
            lo <= hi <= hay@.len(),
            line == hay@.subrange(lo as int, hi as int),
            forall|p: int|
                0 <= p < i - lo ==> #[trigger] line.subrange(p, p + needle@.len()) != needle@,
        decreases last - i,
    {
        if occurs_at(hay, lo, hi, needle, i) {
            assert(line.subrange(i - lo, i - lo + needle@.len()) == needle@);
            return true;
        }
        if i == last {
            assert(!has_sub(line, needle@)) by {
                if has_sub(line, needle@) {
                    let p = choose|p: int|
                        0 <= p <= line.len() - needle@.len() && #[trigger] line.subrange(
                            p,
                            p + needle@.len(),
                        ) == needle@;
                    assert(p <= i - lo);
                }
            }
            return false;
        }
        i = i + 1;
    }
}

/// The line that starts at `i` ends between `i` and the end of the text, on a
/// line break unless at the end of the text, and holds no line break.
pub proof fn lemma_line_end_bounds(s: Seq<char>, i: int)
    requires
        0 <= i <= s.len(),
    ensures
        i <= line_end_from(s, i) <= s.len(),
        line_end_from(s, i) < s.len() ==> s[line_end_from(s, i)] == '\n',
        forall|j: int| i <= j < line_end_from(s, i) ==> s[j] != '\n',
    decreases s.len() - i,
{
    if i < s.len() && s[i] != '\n' {
        lemma_line_end_bounds(s, i + 1);
    }
}

proof fn lemma_line_end_shift(s: Seq<char>, start: int, i: int)
    requires
        0 <= start <= i <= s.len(),
        forall|j: int| start <= j < i ==> s[j] != '\n',
    ensures
        line_end_from(s.skip(start), i - start) + start == line_end_from(s, i),
    decreases s.len() - i,
{
    if i < s.len() && s[i] != '\n' {
        lemma_line_end_shift(s, start, i + 1);
    }
}

proof fn lemma_line_end_from_start(s: Seq<char>, start: int)
    requires
        0 <= start <= s.len(),
    ensures
        line_end_from(s.skip(start), 0) + start == line_end_from(s, start),
{
    lemma_line_end_shift(s, start, start);
}

/// The lines of `contents` that contain `query`.
pub fn search<'a>(query: &str, contents: &'a str) -> (results: Vec<&'a str>)
    ensures
        results@.map_values(|l: &str| l@) == matching_lines(lines_of(contents@), query@),
{
    let cs = chars_of(contents);
    let qs = chars_of(query);
    let n = cs.len();
    let mut results: Vec<&'a str> = Vec::new();
    let mut start: usize = 0;
    let ghost done: Seq<Seq<char>> = Seq::empty();
    assert(contents@.skip(0) == contents@);
    while start < n
        invariant
            cs@ == contents@,
            qs@ == query@,
            n == cs@.len(),
            start <= n,
            lines_of(contents@) == done + lines_of(contents@.skip(start as int)),
            results@.map_values(|l: &str| l@) == matching_lines(done, query@),
        decreases n - start,
    {
        let ghost rest = contents@.skip(start as int);
        // find the end of the line
        let mut end = start;
        while end < n && cs[end] != '\n'
            invariant
                start <= end <= n,
                n == cs@.len(),
                forall|j: int| start <= j < end ==> cs@[j] != '\n',
            decreases n - end,
        {
            end = end + 1;
        }
        proof {
            lemma_line_end_bounds(contents@, start as int);
            lemma_line_end_from_start(contents@, start as int);
            if end < n {
                assert(line_end_from(contents@, end as int) == end);
            }
            lemma_line_end_stop(contents@, start as int, end as int);
        }
        let mut stop = end;
        if end < n && end > start && cs[end - 1] == '\r' {
            stop = end - 1;
        }
        let ghost line = if end < n {
            strip_cr(rest.take(end - start))
        } else {
            rest
        };
        proof {
            assert(rest.take(end - start) =~= contents@.subrange(start as int, end as int));
            if end >= n {
                assert(rest =~= contents@.subrange(start as int, end as int));
            }
            assert(line =~= contents@.subrange(start as int, stop as int));
            if end < n {
                assert(rest.skip(end - start + 1) =~= contents@.skip(end + 1));
                assert(lines_of(rest) == seq![line] + lines_of(contents@.skip(end + 1)));
            } else {
                assert(lines_of(rest) == seq![line]);
            }
        }
        let found = line_contains(&cs, start, stop, &qs);
        let ghost old_results = results@;
        if found {
            let piece = contents.substring_char(start, stop);
            results.push(piece);
            proof {
                assert(results@.map_values(|l: &str| l@) =~= old_results.map_values(|l: &str| l@).push(line));
            }
        }
        proof {
            let nd = done.push(line);
            assert(nd.drop_last() == done);
            assert(matching_lines(nd, query@) == if has_sub(line, query@) {
                matching_lines(done, query@).push(line)
            } else {
                matching_lines(done, query@)
            });
            if end < n {
                assert(done + lines_of(rest) == nd + lines_of(contents@.skip(end + 1)));
            } else {
                assert(contents@.skip(n as int) =~= Seq::<char>::empty());
                assert(done + lines_of(rest) == nd + lines_of(contents@.skip(n as int)));
            }
            done = nd;
        }
        start = if end < n {
            end + 1
        } else {
            n
        };
    }
    proof {
        assert(contents@.skip(start as int) =~= Seq::<char>::empty());
        assert(done + Seq::<Seq<char>>::empty() == done);
    }
    results
}

proof fn lemma_line_end_stop(s: Seq<char>, start: int, end: int)
    requires
        0 <= start <= end <= s.len(),
        forall|j: int| start <= j < end ==> s[j] != '\n',
        end < s.len() ==> s[end] == '\n',
    ensures
        line_end_from(s, start) == end,
    decreases end - start,
{
    if start < end {
        lemma_line_end_stop(s, start + 1, end);
    }
}

/// The last `'/'` in `s`, or if there is none the last `'\\'`, or `None`.
pub open spec fn last_index_of(s: Seq<char>, c: char) -> Option<int> {
    if exists|i: int| 0 <= i < s.len() && s[i] == c {
        Some(choose|i: int| 0 <= i < s.len() && s[i] == c && forall|j: int| i < j < s.len() ==> s[j] != c)
    } else {
        None
    }
}

/// The program name without its directory: what follows the last `'/'` of the
/// command, or if there is none the last `'\\'`.
pub open spec fn program_name(cmd: Seq<char>) -> Seq<char> {
    match last_index_of(cmd, '/') {
        Some(i) => cmd.skip(i + 1),
        None => match last_index_of(cmd, '\\') {
            Some(i) => cmd.skip(i + 1),
            None => cmd,
        },
    }
}

/// The last position of `c` in `s`.
fn rfind_char(s: &Vec<char>, c: char) -> (r: Option<usize>)
    ensures
        r matches Some(i) ==> i < s@.len() && s@[i as int] == c && forall|j: int|
            i < j < s@.len() ==> s@[j] != c,
        r is None ==> forall|j: int| 0 <= j < s@.len() ==> s@[j] != c,
{
    let mut i = s.len();
    while i > 0
        invariant
            i <= s@.len(),
            forall|j: int| i <= j < s@.len() ==> s@[j] != c,
        decreases i,
    {
        if s[i - 1] == c {
            return Some(i - 1);
        }
        i = i - 1;
    }
    None
}

proof fn lemma_last_index(s: Seq<char>, c: char, i: int)
    requires
        0 <= i < s.len(),
        s[i] == c,
        forall|j: int| i < j < s.len() ==> s[j] != c,
    ensures
        last_index_of(s, c) == Some(i),
{
    let k = choose|k: int| 0 <= k < s.len() && s[k] == c && forall|j: int| k < j < s.len() ==> s[j] != c;
    assert(0 <= k < s.len() && s[k] == c && forall|j: int| k < j < s.len() ==> s[j] != c);
    if k < i {
        assert(s[i] != c);
    }
    if i < k {
        assert(s[k] != c);
    }
}

/// The name of the program, without its directory, from the command line arguments.
pub fn extract_program_name<'a>(args: &'a [String]) -> (name: &'a str)
    requires
        args@.len() >= 1,
    ensures
        name@ == program_name(args@[0]@),
{
    let cmd: &'a str = args[0].as_str();
    let cs = chars_of(cmd);
    let slash = rfind_char(&cs, '/');
    let idx = match slash {
        Some(i) => {
            proof {
                lemma_last_index(cs@, '/', i as int);
            }
            Some(i)
        },
        None => {
            let back = rfind_char(&cs, '\\');
            proof {
                if let Some(i) = back {
                    lemma_last_index(cs@, '\\', i as int);
                }
            }
            back
        },
    };
    let n = cs.len();
    match idx {
        Some(i) => {
            let r = cmd.substring_char(i + 1, n);
            assert(r@ =~= cmd@.skip(i + 1));
            r
        },
        None => cmd,
    }
}

/// The report on a search: a line saying the query was not found, or a
/// line with the number of matches followed by each matching line.
pub open spec fn report_lines(query: Seq<char>, file_path: Seq<char>, found: Seq<Seq<char>>) -> Seq<Seq<char>> {
    if found.len() == 0 {
        seq!["`"@ + query + "` was not found in file "@ + file_path]
    } else {
        seq!["`"@ + query + "` was found "@ + decimal(found.len()) + " times in file "@ + file_path + ":"@]
            + found.map_values(|l: Seq<char>| "-> "@ + l)
    }
}

/// The lines that report the search of a file's contents for the query of
/// a configuration.
pub fn report(config: &Config, contents: &str) -> (lines: Vec<String>)
    ensures
        lines@.map_values(|l: String| l@) == report_lines(
            config.spec_query(),
            config.spec_file_path(),
            matching_lines(lines_of(contents@), config.spec_query()),
        ),
{
    let results = search(config.query(), contents);
    let ghost found = matching_lines(lines_of(contents@), config.spec_query());
    let mut lines: Vec<String> = Vec::new();
    if results.len() == 0 {
        let s = joined(String::from_str("`"), config.query());
        let s = joined(s, "` was not found in file ");
        let s = joined(s, config.file_path());
        lines.push(s);
        assert(lines@.map_values(|l: String| l@) == seq![s@]);
        return lines;
    }
    let s = joined(String::from_str("`"), config.query());
    let s = joined(s, "` was found ");
    let s = joined(s, decimal_string(results.len() as u64).as_str());
    let s = joined(s, " times in file ");
    let s = joined(s, config.file_path());
    let s = joined(s, ":");
    lines.push(s);
    assert(results@.map_values(|l: &str| l@).len() == results@.len());
    let mut i: usize = 0;
    while i < results.len()
        invariant
            i <= results@.len(),
            results@.map_values(|l: &str| l@) == found,
            found.len() > 0,
            lines@.map_values(|l: String| l@) == seq![s@] + found.take(i as int).map_values(|l: Seq<char>| "-> "@ + l),
            s@ == "`"@ + config.spec_query() + "` was found "@ + decimal(found.len()) + " times in file "@
                + config.spec_file_path() + ":"@,
        decreases results.len() - i,
    {
        let line = joined(String::from_str("-> "), results[i]);
        let ghost old_lines = lines@;
        lines.push(line);
        assert(found[i as int] == results@[i as int]@);
        assert(lines@.map_values(|l: String| l@) =~= old_lines.map_values(|l: String| l@).push(line@));
        assert(found.take(i as int + 1).map_values(|l: Seq<char>| "-> "@ + l) =~= found.take(i as int).map_values(
            |l: Seq<char>| "-> "@ + l,
        ).push("-> "@ + found[i as int]));
        assert(lines@.map_values(|l: String| l@) == seq![s@] + found.take(i as int + 1).map_values(
            |l: Seq<char>| "-> "@ + l,
        ));
        i = i + 1;
    }
    assert(found.take(i as int) == found);
    lines
}

} // verus!
