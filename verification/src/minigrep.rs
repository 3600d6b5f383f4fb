//! Line search over a text: the lines that hold a query, with or without
//! regard to case.

use vstd::prelude::*;

verus! {

/// What a run searches for, where, and how.
pub struct Config {
    pub query: String,
    pub file_path: String,
    pub ignore_case: bool,
}

impl Config {
    /// Reads the query and the file path from the second and third argument
    /// (the first is the program's name). Whether case is ignored is the
    /// caller's to find out and hand in.
    pub fn build(args: &[String], ignore_case: bool) -> (r: Result<Config, &'static str>)
        ensures
            r is Err <==> args@.len() < 3,
            r matches Err(message) ==> message@ == "Not enough arguents."@,
            r matches Ok(config) ==> {
                &&& config.query@ == args@[1]@
                &&& config.file_path@ == args@[2]@
                &&& config.ignore_case == ignore_case
            },
    {
        if args.len() < 3 {
            return Err("Not enough arguents.");
        }
        let query = args[1].clone();
        let file_path = args[2].clone();
        Ok(Config { query, file_path, ignore_case })
    }
}

/// The index of the first line feed in `s`, or the length of `s` where it
/// has none.
pub open spec fn first_break(s: Seq<char>) -> int
    decreases s.len(),
{
    if s.len() == 0 || s[0] == '\n' {
        0
    } else {
        1 + first_break(s.drop_first())
    }
}

/// `line` without one carriage return at its end.
pub open spec fn without_cr(line: Seq<char>) -> Seq<char> {
    if line.len() > 0 && line.last() == '\r' {
        line.drop_last()
    } else {
        line
    }
}

/// The lines of a text. A line ends at a line feed, or at a carriage return
/// directly followed by one; neither belongs to the line. After the last line
/// ending only a non-empty rest counts as a line, and it keeps a carriage
/// return at its end.
pub open spec fn lines_of(s: Seq<char>) -> Seq<Seq<char>>
    decreases s.len(),
{
    let i = first_break(s);
    if s.len() == 0 {
        Seq::empty()
    } else if 0 <= i < s.len() {
        seq![without_cr(s.take(i))] + lines_of(s.skip(i + 1))
    } else {
        seq![s]
    }
}

/// `needle` stands somewhere in `hay` as a run of consecutive characters.
pub open spec fn occurs_in(needle: Seq<char>, hay: Seq<char>) -> bool {
    exists|i: int|
        0 <= i && i + needle.len() <= hay.len() && #[trigger] hay.subrange(i, i + needle.len())
            == needle
}

/// The lowercase form of a text as `str::to_lowercase` gives it.
pub uninterp spec fn lowercase_of(s: Seq<char>) -> Seq<char>;

/// The texts of a list of string slices.
pub open spec fn texts(v: Seq<&str>) -> Seq<Seq<char>> {
    Seq::new(v.len(), |i: int| v[i]@)
}

/// The texts of a list of strings.
pub open spec fn owned_texts(v: Seq<String>) -> Seq<Seq<char>> {
    Seq::new(v.len(), |i: int| v[i]@)
}

/// The test "holds `query`" on a line.
pub open spec fn holds(query: Seq<char>) -> spec_fn(Seq<char>) -> bool {
    |line: Seq<char>| occurs_in(query, line)
}

/// The test "holds `query`" on a line, both taken in lowercase.
pub open spec fn holds_folded(query: Seq<char>) -> spec_fn(Seq<char>) -> bool {
    |line: Seq<char>| occurs_in(lowercase_of(query), lowercase_of(line))
}

/// The lowercase forms of a list of lines.
pub open spec fn folded_lines(lines: Seq<Seq<char>>) -> Seq<Seq<char>> {
    lines.map_values(|line: Seq<char>| lowercase_of(line))
}

/// The lines among the first `n` of `lines` whose counterpart in `folded`
/// holds `query`.
pub open spec fn picked(
    query: Seq<char>,
    lines: Seq<Seq<char>>,
    folded: Seq<Seq<char>>,
    n: int,
) -> Seq<Seq<char>>
    decreases n,
{
    if n <= 0 {
        Seq::empty()
    } else if occurs_in(query, folded[n - 1]) {
        picked(query, lines, folded, n - 1).push(lines[n - 1])
    } else {
        picked(query, lines, folded, n - 1)
    }
}

/// Calls `str::lines` and collects what it yields. Trusted: the slices are
/// the lines of the text as `lines_of` defines them, in order.
#[verifier::external_body]
pub(crate) fn split_lines<'a>(contents: &'a str) -> (lines: Vec<&'a str>)
    ensures
        texts(lines@) == lines_of(contents@),
{
    contents.lines().collect()
}

/// Calls `str::contains` with a string pattern. Trusted: the answer is
/// whether `needle` occurs in `hay`.
#[verifier::external_body]
fn contains_text(hay: &str, needle: &str) -> (found: bool)
    ensures
        found == occurs_in(needle@, hay@),
{
    hay.contains(needle)
}

/// Calls `str::to_lowercase`. Trusted: the result is the lowercase form of
/// the text, which depends on the text alone.
#[verifier::external_body]
fn lowercase(s: &str) -> (lower: String)
    ensures
        lower@ == lowercase_of(s@),
{
    s.to_lowercase()
}

/// The lines of `contents` that hold `query`, in their order.
pub fn search<'a>(query: &str, contents: &'a str) -> (results: Vec<&'a str>)
    ensures
        texts(results@) == lines_of(contents@).filter(holds(query@)),
{
    let lines = split_lines(contents);
    let mut results: Vec<&'a str> = Vec::new();
    let mut i: usize = 0;
    while i < lines.len()
        invariant
            i <= lines@.len(),
            texts(results@) == texts(lines@).take(i as int).filter(holds(query@)),
        decreases lines@.len() - i,
    {
        let line: &'a str = lines[i];
        let ghost before = results@;
        proof {
            reveal(Seq::filter);
            assert(texts(lines@).take(i + 1).drop_last() == texts(lines@).take(i as int));
        }
        if contains_text(line, query) {
            results.push(line);
            proof {
                assert(texts(results@) == texts(before).push(line@));
            }
        }
        i = i + 1;
    }
    proof {
        assert(texts(lines@).take(lines@.len() as int) == texts(lines@));
    }
    results
}

/// The lines whose folded counterpart holds `query`: `lines[i]` is kept
/// exactly when `query` occurs in `folded[i]`.
pub fn search_folded<'a>(query: &str, lines: &Vec<&'a str>, folded: &Vec<String>) -> (results: Vec<
    &'a str,
>)
    requires
        lines@.len() == folded@.len(),
    ensures
        texts(results@) == picked(
            query@,
            texts(lines@),
            owned_texts(folded@),
            lines@.len() as int,
        ),
{
    let mut results: Vec<&'a str> = Vec::new();
    let mut i: usize = 0;
    while i < lines.len()
        invariant
            i <= lines@.len(),
            lines@.len() == folded@.len(),
            texts(results@) == picked(query@, texts(lines@), owned_texts(folded@), i as int),
        decreases lines@.len() - i,
    {
        let line: &'a str = lines[i];
        let ghost before = results@;
        if contains_text(folded[i].as_str(), query) {
            results.push(line);
            proof {
                assert(texts(results@) == texts(before).push(line@));
            }
        }
        i = i + 1;
    }
    results
}

/// The lines of `contents` that hold `query` when both are taken in
/// lowercase, in their order and as they stand in `contents`.
pub fn search_case_insensitive<'a>(query: &str, contents: &'a str) -> (results: Vec<&'a str>)
    ensures
        texts(results@) == lines_of(contents@).filter(holds_folded(query@)),
{
    let ghost wanted = query@;
    let query = lowercase(query);
    let lines = split_lines(contents);
    let mut folded: Vec<String> = Vec::new();
    let mut i: usize = 0;
    while i < lines.len()
        invariant
            i <= lines@.len(),
            folded@.len() == i,
            forall|j: int| 0 <= j < i ==> (#[trigger] folded@[j])@ == lowercase_of(lines@[j]@),
        decreases lines@.len() - i,
    {
        folded.push(lowercase(lines[i]));
        i = i + 1;
    }
    proof {
        assert(owned_texts(folded@) == folded_lines(lines_of(contents@)));
        lemma_picked_is_filter(wanted, lines_of(contents@), lines@.len() as int);
        assert(lines_of(contents@).take(lines@.len() as int) == lines_of(contents@));
    }
    search_folded(query.as_str(), &lines, &folded)
}

/// Picking by the lowercase forms is filtering by the case-blind test.
proof fn lemma_picked_is_filter(query: Seq<char>, lines: Seq<Seq<char>>, n: int)
    requires
        0 <= n <= lines.len(),
    ensures
        picked(lowercase_of(query), lines, folded_lines(lines), n) == lines.take(n).filter(
            holds_folded(query),
        ),
    decreases n,
{
    reveal(Seq::filter);
    if n > 0 {
        lemma_picked_is_filter(query, lines, n - 1);
        assert(lines.take(n).drop_last() == lines.take(n - 1));
    }
}

} // verus!
