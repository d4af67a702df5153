//! The search engine: split the contents into lines and keep the lines that
//! contain the query, either verbatim or after lowercasing both sides.

use crate::config::Config;
use vstd::prelude::*;
use vstd::string::StrSliceExecFns;

verus! {

/// The Unicode lowercase transform of a character sequence, as
/// `str::to_lowercase` computes it: a fixed function of the characters alone.
pub uninterp spec fn lower_of(s: Seq<char>) -> Seq<char>;

/// Relies on str::to_lowercase: the result is a function of the characters
/// of `s` alone, named `lower_of`.
#[verifier::external_body]
fn lowercase(s: &str) -> (r: String)
    ensures
        r@ == lower_of(s@),
{
    s.to_lowercase()
}

/// The query occurs in `line` starting at position `i`.
pub open spec fn is_match_at(line: Seq<char>, query: Seq<char>, i: int) -> bool {
    &&& 0 <= i
    &&& i + query.len() <= line.len()
    &&& line.subrange(i, i + query.len()) == query
}

/// The query occurs somewhere in `line` as a contiguous substring.
pub open spec fn is_match(line: Seq<char>, query: Seq<char>) -> bool {
    exists|i: int| is_match_at(line, query, i)
}

/// The lines of `cur + rest`, where `cur` is a partial line already scanned:
/// a newline ends the current line, and a final line is kept only if it is
/// non-empty, so a trailing newline yields no empty trailing entry.
pub open spec fn split_lines_from(cur: Seq<char>, rest: Seq<char>) -> Seq<Seq<char>>
    decreases rest.len(),
{
    if rest.len() == 0 {
        if cur.len() == 0 {
            Seq::empty()
        } else {
            seq![cur]
        }
    } else if rest[0] == '\n' {
        seq![cur] + split_lines_from(Seq::empty(), rest.drop_first())
    } else {
        split_lines_from(cur.push(rest[0]), rest.drop_first())
    }
}

/// The lines of a text, split on the newline character alone; a trailing
/// newline produces no empty trailing entry.
pub open spec fn split_lines(s: Seq<char>) -> Seq<Seq<char>> {
    split_lines_from(Seq::empty(), s)
}

/// Splits a text into its lines, on the newline character alone.
pub fn split_into_lines(s: &str) -> (r: Vec<String>)
    ensures
        r.deep_view() == split_lines(s@),
{
    let n: usize = s.unicode_len();
    let mut r: Vec<String> = Vec::new();
    let mut start: usize = 0;
    let mut i: usize = 0;
    proof {
        assert(s@.subrange(0, 0) =~= Seq::<char>::empty());
        assert(s@.subrange(0, n as int) =~= s@);
        assert(r.deep_view() + split_lines_from(s@.subrange(0, 0), s@.subrange(0, n as int))
            =~= split_lines(s@));
    }
    while i < n
        invariant
            n == s@.len(),
            start <= i <= n,
            r.deep_view() + split_lines_from(
                s@.subrange(start as int, i as int),
                s@.subrange(i as int, n as int),
            ) == split_lines(s@),
        decreases n - i,
    {
        let ghost cur = s@.subrange(start as int, i as int);
        let ghost rest = s@.subrange(i as int, n as int);
        assert(rest[0] == s@[i as int]);
        assert(rest.drop_first() =~= s@.subrange(i + 1, n as int));
        let ghost prev = r.deep_view();
        let c = s.get_char(i);
        if c == '\n' {
            let line = s.substring_char(start, i);
            r.push(line.to_owned());
            proof {
                assert(split_lines_from(cur, rest) == seq![cur] + split_lines_from(
                    Seq::empty(),
                    rest.drop_first(),
                ));
                assert(s@.subrange(i + 1, i + 1) =~= Seq::<char>::empty());
                assert(r.deep_view() =~= prev.push(cur));
                assert(prev.push(cur) + split_lines_from(Seq::empty(), rest.drop_first())
                    =~= prev + (seq![cur] + split_lines_from(Seq::empty(), rest.drop_first())));
            }
            start = i + 1;
        } else {
            proof {
                assert(split_lines_from(cur, rest) == split_lines_from(
                    cur.push(rest[0]),
                    rest.drop_first(),
                ));
                assert(s@.subrange(start as int, i + 1) =~= cur.push(s@[i as int]));
            }
        }
        i = i + 1;
    }
    proof {
        assert(s@.subrange(i as int, n as int) =~= Seq::<char>::empty());
    }
    if start < n {
        let ghost prev = r.deep_view();
        let line = s.substring_char(start, n);
        r.push(line.to_owned());
        proof {
            let cur = s@.subrange(start as int, n as int);
            assert(split_lines_from(cur, Seq::empty()) == seq![cur]);
            assert(r.deep_view() =~= prev + seq![cur]);
        }
    } else {
        proof {
            assert(split_lines_from(s@.subrange(start as int, n as int), Seq::empty())
                =~= Seq::<Seq<char>>::empty());
            assert(r.deep_view() + Seq::<Seq<char>>::empty() =~= r.deep_view());
        }
    }
    r
}

/// Collects the characters of a string slice into a vector.
fn chars_vec(s: &str) -> (r: Vec<char>)
    ensures
        r@ == s@,
{
    let n: usize = s.unicode_len();
    let mut r: Vec<char> = Vec::new();
    let mut i: usize = 0;
    while i < n
        invariant
            n == s@.len(),
            i <= n,
            r@ == s@.subrange(0, i as int),
        decreases n - i,
    {
        let c = s.get_char(i);
        r.push(c);
        assert(r@ =~= s@.subrange(0, i + 1));
        i = i + 1;
    }
    assert(s@.subrange(0, n as int) =~= s@);
    r
}

/// Compares the query against `line` at one starting position.
fn match_at(line: &Vec<char>, query: &Vec<char>, i: usize) -> (b: bool)
    requires
        i + query@.len() <= line@.len(),
    ensures
        b == is_match_at(line@, query@, i as int),
{
    let n: usize = line.len();
    let m: usize = query.len();
    let mut j: usize = 0;
    while j < m
        invariant
            n == line@.len(),
            m == query@.len(),
            i + m <= n,
            j <= m,
            forall|k: int| 0 <= k < j ==> line@[i + k] == query@[k],
        decreases m - j,
    {
        if line[i + j] != query[j] {
            assert(!is_match_at(line@, query@, i as int)) by {
                if line@.subrange(i as int, i + query@.len()) == query@ {
                    assert(line@.subrange(i as int, i + query@.len())[j as int] == line@[i + j]);
                }
            }
            return false;
        }
        j = j + 1;
    }
    assert(line@.subrange(i as int, i + query@.len()) =~= query@);
    true
}

/// Decides whether the query occurs in `line` as a contiguous substring.
pub fn contains_query(line: &Vec<char>, query: &Vec<char>) -> (b: bool)
    ensures
        b == is_match(line@, query@),
{
    if query.len() == 0 {
        assert(is_match_at(line@, query@, 0)) by {
            assert(line@.subrange(0, 0) =~= query@);
        }
        return true;
    }
    if query.len() > line.len() {
        assert(forall|i: int| !is_match_at(line@, query@, i));
        return false;
    }
    let bound: usize = line.len() - query.len();
    let mut i: usize = 0;
    while i <= bound
        invariant
            1 <= query@.len() <= line@.len(),
            line@.len() <= usize::MAX,
            bound == line@.len() - query@.len(),
            i <= bound + 1,
            forall|k: int| 0 <= k < i ==> !is_match_at(line@, query@, k),
        decreases bound + 1 - i,
    {
        if match_at(line, query, i) {
            return true;
        }
        i = i + 1;
    }
    assert(forall|k: int| !is_match_at(line@, query@, k));
    false
}

/// The lines of `contents` that contain `query` verbatim, in file order.
pub open spec fn search_matches(query: Seq<char>, contents: Seq<char>) -> Seq<Seq<char>> {
    split_lines(contents).filter(|line: Seq<char>| is_match(line, query))
}

/// The lines of `contents` whose lowercase form contains the lowercase form
/// of `query`, in file order; the lines keep their original case.
pub open spec fn search_matches_ci(query: Seq<char>, contents: Seq<char>) -> Seq<Seq<char>> {
    split_lines(contents).filter(|line: Seq<char>| is_match(lower_of(line), lower_of(query)))
}

/// Filtering a sequence extended by one element keeps the old filtered
/// sequence and appends the new element exactly when it satisfies the
/// predicate.
proof fn lemma_filter_push<A>(s: Seq<A>, x: A, pred: spec_fn(A) -> bool)
    ensures
        s.push(x).filter(pred) == (if pred(x) {
            s.filter(pred).push(x)
        } else {
            s.filter(pred)
        }),
{
    reveal(Seq::filter);
    assert(s.push(x).drop_last() =~= s);
    assert(s.push(x).last() == x);
}

/// Returns every line of `contents` that contains `query` as a literal
/// substring, in file order.
pub fn search(query: &str, contents: &str) -> (r: Vec<String>)
    ensures
        r.deep_view() == search_matches(query@, contents@),
{
    let pat = chars_vec(query);
    let lines = split_into_lines(contents);
    let ghost all = split_lines(contents@);
    let ghost pred = |line: Seq<char>| is_match(line, query@);
    let mut r: Vec<String> = Vec::new();
    let mut j: usize = 0;
    proof {
        assert(all.subrange(0, 0) =~= Seq::<Seq<char>>::empty());
        assert(Seq::<Seq<char>>::empty().filter(pred) =~= Seq::<Seq<char>>::empty()) by {
            reveal(Seq::filter);
        }
    }
    while j < lines.len()
        invariant
            pat@ == query@,
            lines.deep_view() == all,
            all == split_lines(contents@),
            pred == (|line: Seq<char>| is_match(line, query@)),
            j <= lines.len(),
            lines@.len() == all.len(),
            r.deep_view() == all.subrange(0, j as int).filter(pred),
        decreases lines@.len() - j,
    {
        let ghost prev = r.deep_view();
        assert(lines@[j as int]@ == all[j as int]);
        let line_chars = chars_vec(lines[j].as_str());
        if contains_query(&line_chars, &pat) {
            r.push(lines[j].clone());
            assert(r.deep_view() =~= prev.push(all[j as int]));
        }
        proof {
            lemma_filter_push(all.subrange(0, j as int), all[j as int], pred);
            assert(all.subrange(0, j + 1) =~= all.subrange(0, j as int).push(all[j as int]));
        }
        j = j + 1;
    }
    proof {
        assert(all.subrange(0, all.len() as int) =~= all);
    }
    r
}

/// Returns every line of `contents` that contains `query` after both the
/// line and the query are lowercased; the returned lines keep their
/// original case. File order is preserved.
pub fn search_case_insensitive(query: &str, contents: &str) -> (r: Vec<String>)
    ensures
        r.deep_view() == search_matches_ci(query@, contents@),
{
    let lowered = lowercase(query);
    let pat = chars_vec(lowered.as_str());
    let lines = split_into_lines(contents);
    let ghost all = split_lines(contents@);
    let ghost pred = |line: Seq<char>| is_match(lower_of(line), lower_of(query@));
    let mut r: Vec<String> = Vec::new();
    let mut j: usize = 0;
    proof {
        assert(all.subrange(0, 0) =~= Seq::<Seq<char>>::empty());
        assert(Seq::<Seq<char>>::empty().filter(pred) =~= Seq::<Seq<char>>::empty()) by {
            reveal(Seq::filter);
        }
    }
    while j < lines.len()
        invariant
            pat@ == lower_of(query@),
            lines.deep_view() == all,
            all == split_lines(contents@),
            pred == (|line: Seq<char>| is_match(lower_of(line), lower_of(query@))),
            j <= lines.len(),
            lines@.len() == all.len(),
            r.deep_view() == all.subrange(0, j as int).filter(pred),
        decreases lines@.len() - j,
    {
        let ghost prev = r.deep_view();
        assert(lines@[j as int]@ == all[j as int]);
        let lowered_line = lowercase(lines[j].as_str());
        let line_chars = chars_vec(lowered_line.as_str());
        if contains_query(&line_chars, &pat) {
            r.push(lines[j].clone());
            assert(r.deep_view() =~= prev.push(all[j as int]));
        }
        proof {
            lemma_filter_push(all.subrange(0, j as int), all[j as int], pred);
            assert(all.subrange(0, j + 1) =~= all.subrange(0, j as int).push(all[j as int]));
        }
        j = j + 1;
    }
    proof {
        assert(all.subrange(0, all.len() as int) =~= all);
    }
    r
}

/// Searching is a pure function of its inputs: any two results that
/// `search` may return for identical query and contents are equal.
pub proof fn lemma_search_deterministic(
    query: Seq<char>,
    contents: Seq<char>,
    r1: Seq<Seq<char>>,
    r2: Seq<Seq<char>>,
)
    requires
        r1 == search_matches(query, contents),
        r2 == search_matches(query, contents),
    ensures
        r1 == r2,
{
}

/// Case-insensitive searching is a pure function of its inputs: any two
/// results that `search_case_insensitive` may return for identical query
/// and contents are equal.
pub proof fn lemma_search_case_insensitive_deterministic(
    query: Seq<char>,
    contents: Seq<char>,
    r1: Seq<Seq<char>>,
    r2: Seq<Seq<char>>,
)
    requires
        r1 == search_matches_ci(query, contents),
        r2 == search_matches_ci(query, contents),
    ensures
        r1 == r2,
{
}

/// An empty query occurs in every line.
pub proof fn lemma_empty_query_matches(line: Seq<char>)
    ensures
        is_match(line, Seq::<char>::empty()),
{
    assert(is_match_at(line, Seq::<char>::empty(), 0)) by {
        assert(line.subrange(0, 0) =~= Seq::<char>::empty());
    }
}

/// Empty contents have no lines, so either search returns no matches.
pub proof fn lemma_empty_contents_no_matches(query: Seq<char>)
    ensures
        search_matches(query, Seq::<char>::empty()) == Seq::<Seq<char>>::empty(),
        search_matches_ci(query, Seq::<char>::empty()) == Seq::<Seq<char>>::empty(),
{
    reveal(Seq::filter);
    assert(split_lines(Seq::<char>::empty()) =~= Seq::<Seq<char>>::empty());
}

/// Runs the search that the configuration selects: case-sensitive or
/// case-insensitive, on the given contents.
pub fn matching_lines(config: &Config, contents: &str) -> (r: Vec<String>)
    ensures
        config.case_sensitive ==> r.deep_view() == search_matches(config.query@, contents@),
        !config.case_sensitive ==> r.deep_view() == search_matches_ci(config.query@, contents@),
{
    if config.case_sensitive {
        search(config.query.as_str(), contents)
    } else {
        search_case_insensitive(config.query.as_str(), contents)
    }
}

} // verus!
