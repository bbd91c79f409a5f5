use vstd::prelude::*;
use crate::text::{chars_of, lines, lines_of, lower_text, lowercase, string_from_chars};

verus! {

/// What a search is asked to do: find `query` in the file `filename`.
pub struct Config {
    pub query: String,
    pub filename: String,
    pub case_sensitive: bool,
}

/// `query` occurs in `line`.
pub open spec fn occurs(line: Seq<char>, query: Seq<char>) -> bool {
    exists|i: int| 0 <= i <= line.len() - query.len() && #[trigger] line.subrange(i, i + query.len()) == query
}

/// The lines of `ls` in which `query` occurs, in order.
pub open spec fn matching(ls: Seq<Seq<char>>, query: Seq<char>) -> Seq<Seq<char>>
    decreases ls.len(),
{
    if ls.len() == 0 {
        ls
    } else if occurs(ls.last(), query) {
        matching(ls.drop_last(), query).push(ls.last())
    } else {
        matching(ls.drop_last(), query)
    }
}

/// The lines of `ls` whose lower-case form holds the lower-case form of `query`.
pub open spec fn matching_folded(ls: Seq<Seq<char>>, query: Seq<char>) -> Seq<Seq<char>>
    decreases ls.len(),
{
    if ls.len() == 0 {
        ls
    } else if occurs(lower_text(ls.last()), lower_text(query)) {
        matching_folded(ls.drop_last(), query).push(ls.last())
    } else {
        matching_folded(ls.drop_last(), query)
    }
}

/// Whether `query` occurs in `line`.
pub fn contains(line: &Vec<char>, query: &Vec<char>) -> (r: bool)
    ensures
        r == occurs(line@, query@),
{
    let n = line.len();
    if query.len() > n {
        return false;
    }
    if query.len() == 0 {
        proof {
            let ghost zero: int = 0;
            assert(line@.subrange(zero, zero + query@.len()) =~= query@);
        }
        return true;
    }
    let last = n - query.len();
    let mut i: usize = 0;
    while i <= last
        invariant
            n == line@.len(),
            query@.len() > 0,
            last == line@.len() - query@.len(),
            i <= last + 1,
            forall|k: int| 0 <= k < i ==> #[trigger] line@.subrange(k, k + query@.len()) != query@,
        decreases last + 1 - i,
    {
        let mut j: usize = 0;
        while j < query.len() && line[i + j] == query[j]
            invariant
                n == line@.len(),
                i <= last,
                last == line@.len() - query@.len(),
                j <= query@.len(),
                forall|m: int| 0 <= m < j ==> line@[i + m] == query@[m],
            decreases query@.len() - j,
        {
            j = j + 1;
        }
        if j == query.len() {
            proof {
                assert(line@.subrange(i as int, i + query@.len()) =~= query@);
            }
            return true;
        }
        proof {
            assert(line@.subrange(i as int, i + query@.len())[j as int] != query@[j as int]);
        }
        i = i + 1;
    }
    false
}

/// The lines of `contents` in which `query` occurs, in order.
pub fn search(query: &str, contents: &str) -> (r: Vec<String>)
    ensures
        r@.map_values(|l: String| l@) == matching(lines_of(contents@), query@),
{
    let ls = lines(contents);
    let q = chars_of(query);
    let mut out: Vec<String> = Vec::new();
    let mut i: usize = 0;
    while i < ls.len()
        invariant
            ls.deep_view() == lines_of(contents@),
            q@ == query@,
            i <= ls@.len(),
            out@.map_values(|l: String| l@) == matching(ls.deep_view().subrange(0, i as int), query@),
        decreases ls@.len() - i,
    {
        proof {
            assert(ls.deep_view().subrange(0, i + 1).drop_last() =~= ls.deep_view().subrange(0, i as int));
            assert(ls@[i as int].deep_view() =~= ls@[i as int]@);
            assert(ls.deep_view().subrange(0, i + 1).last() == ls@[i as int]@);
        }
        if contains(&ls[i], &q) {
            let line = string_from_chars(&ls[i]);
            let ghost pre = out@;
            out.push(line);
            proof {
                assert(out@.map_values(|l: String| l@) =~= pre.map_values(|l: String| l@).push(ls@[i as int]@));
            }
        }
        i = i + 1;
    }
    proof {
        assert(ls.deep_view().subrange(0, ls@.len() as int) =~= ls.deep_view());
    }
    out
}

/// The lines of `contents` whose lower-case form holds the lower-case form of
/// `query`, in order.
pub fn search_case_insensitive(query: &str, contents: &str) -> (r: Vec<String>)
    ensures
        r@.map_values(|l: String| l@) == matching_folded(lines_of(contents@), query@),
{
    let ls = lines(contents);
    let q = chars_of(lowercase(query).as_str());
    let mut out: Vec<String> = Vec::new();
    let mut i: usize = 0;
    while i < ls.len()
        invariant
            ls.deep_view() == lines_of(contents@),
            q@ == lower_text(query@),
            i <= ls@.len(),
            out@.map_values(|l: String| l@) == matching_folded(ls.deep_view().subrange(0, i as int), query@),
        decreases ls@.len() - i,
    {
        proof {
            assert(ls.deep_view().subrange(0, i + 1).drop_last() =~= ls.deep_view().subrange(0, i as int));
            assert(ls@[i as int].deep_view() =~= ls@[i as int]@);
            assert(ls.deep_view().subrange(0, i + 1).last() == ls@[i as int]@);
        }
        let line = string_from_chars(&ls[i]);
        let folded = chars_of(lowercase(line.as_str()).as_str());
        if contains(&folded, &q) {
            let ghost pre = out@;
            out.push(line);
            proof {
                assert(out@.map_values(|l: String| l@) =~= pre.map_values(|l: String| l@).push(ls@[i as int]@));
            }
        }
        i = i + 1;
    }
    proof {
        assert(ls.deep_view().subrange(0, ls@.len() as int) =~= ls.deep_view());
    }
    out
}

} // verus!
