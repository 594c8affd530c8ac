//! Selecting the lines of a text that contain a query.

use vstd::prelude::*;

use crate::config::Config;
use crate::text::{contains, contains_str, lines_of, split_lines, views};

verus! {

/// What `str::to_lowercase` makes of a text.
pub uninterp spec fn lower_of(s: Seq<char>) -> Seq<char>;

/// Relies on `str::to_lowercase`: full Unicode lowercasing, whose result
/// depends on the characters of `s` alone.
#[verifier::external_body]
fn lowercase(s: &str) -> (r: String)
    ensures
        r@ == lower_of(s@),
{
    s.to_lowercase()
}

/// Lines that contain `query` exactly.
pub open spec fn has(query: Seq<char>) -> spec_fn(Seq<char>) -> bool {
    |l: Seq<char>| contains(l, query)
}

/// Lines that, lowercased, contain `query` lowercased.
pub open spec fn has_folded(query: Seq<char>) -> spec_fn(Seq<char>) -> bool {
    |l: Seq<char>| contains(lower_of(l), lower_of(query))
}

/// The lines of `text` that contain `query`, in their order in `text`.
pub open spec fn matching_lines(query: Seq<char>, text: Seq<char>) -> Seq<Seq<char>> {
    lines_of(text).filter(has(query))
}

/// The lines of `text` that contain `query` when both are lowercased, in
/// their order in `text` and as they stand there.
pub open spec fn matching_lines_folded(query: Seq<char>, text: Seq<char>) -> Seq<Seq<char>> {
    lines_of(text).filter(has_folded(query))
}

proof fn lemma_filter_push(s: Seq<Seq<char>>, x: Seq<char>, p: spec_fn(Seq<char>) -> bool)
    ensures
        s.push(x).filter(p) == (if p(x) {
            s.filter(p).push(x)
        } else {
            s.filter(p)
        }),
{
    reveal(Seq::filter);
    assert(s.push(x).drop_last() == s);
}

/// The lines of `contents` that contain `query`, case-sensitively, in order.
pub fn search<'a>(query: &str, contents: &'a str) -> (r: Vec<&'a str>)
    ensures
        views(r@) == matching_lines(query@, contents@),
        r@.len() <= lines_of(contents@).len(),
{
    let lines = split_lines(contents);
    let ghost all = lines_of(contents@);
    let mut r: Vec<&'a str> = Vec::new();
    let mut i: usize = 0;
    assert(all.take(0).filter(has(query@)) =~= Seq::<Seq<char>>::empty()) by {
        reveal(Seq::filter);
    }
    assert(views(r@) =~= Seq::<Seq<char>>::empty());
    while i < lines.len()
        invariant
            views(lines@) == all,
            i <= lines.len(),
            views(r@) == all.take(i as int).filter(has(query@)),
        decreases lines.len() - i,
    {
        let line = lines[i];
        proof {
            assert(all.take(i + 1) =~= all.take(i as int).push(line@));
            lemma_filter_push(all.take(i as int), line@, has(query@));
        }
        if contains_str(line, query) {
            let ghost before = views(r@);
            r.push(line);
            assert(views(r@) =~= before.push(line@));
        }
        i = i + 1;
    }
    assert(all.take(lines.len() as int) =~= all);
    proof {
        all.lemma_filter_len(has(query@));
    }
    r
}

/// The lines of `contents` that contain `query` when both are lowercased, in
/// order and as they stand in `contents`.
pub fn search_case_insensitive<'a>(query: &str, contents: &'a str) -> (r: Vec<&'a str>)
    ensures
        views(r@) == matching_lines_folded(query@, contents@),
        r@.len() <= lines_of(contents@).len(),
{
    let folded_query = lowercase(query);
    let lines = split_lines(contents);
    let ghost all = lines_of(contents@);
    let mut r: Vec<&'a str> = Vec::new();
    let mut i: usize = 0;
    assert(all.take(0).filter(has_folded(query@)) =~= Seq::<Seq<char>>::empty()) by {
        reveal(Seq::filter);
    }
    assert(views(r@) =~= Seq::<Seq<char>>::empty());
    while i < lines.len()
        invariant
            views(lines@) == all,
            folded_query@ == lower_of(query@),
            i <= lines.len(),
            views(r@) == all.take(i as int).filter(has_folded(query@)),
        decreases lines.len() - i,
    {
        let line = lines[i];
        proof {
            assert(all.take(i + 1) =~= all.take(i as int).push(line@));
            lemma_filter_push(all.take(i as int), line@, has_folded(query@));
        }
        let folded_line = lowercase(line);
        if contains_str(folded_line.as_str(), folded_query.as_str()) {
            let ghost before = views(r@);
            r.push(line);
            assert(views(r@) =~= before.push(line@));
        }
        i = i + 1;
    }
    assert(all.take(lines.len() as int) =~= all);
    proof {
        all.lemma_filter_len(has_folded(query@));
    }
    r
}

/// The lines of `contents` that `config` asks for: those that contain its
/// query, without regard to case where it says so.
pub fn run_search<'a>(config: &Config, contents: &'a str) -> (r: Vec<&'a str>)
    ensures
        config.ignore_case ==> views(r@) == matching_lines_folded(config.query@, contents@),
        !config.ignore_case ==> views(r@) == matching_lines(config.query@, contents@),
{
    if config.ignore_case {
        search_case_insensitive(config.query.as_str(), contents)
    } else {
        search(config.query.as_str(), contents)
    }
}

proof fn lemma_filter_all(s: Seq<Seq<char>>, p: spec_fn(Seq<char>) -> bool)
    requires
        forall|i: int| 0 <= i < s.len() ==> p(s[i]),
    ensures
        s.filter(p) == s,
    decreases s.len(),
{
    if s.len() > 0 {
        lemma_filter_all(s.drop_last(), p);
        lemma_filter_push(s.drop_last(), s.last(), p);
        assert(s.drop_last().push(s.last()) == s);
    } else {
        reveal(Seq::filter);
    }
}

proof fn lemma_filter_none(s: Seq<Seq<char>>, p: spec_fn(Seq<char>) -> bool)
    requires
        forall|i: int| 0 <= i < s.len() ==> !p(s[i]),
    ensures
        s.filter(p).len() == 0,
    decreases s.len(),
{
    if s.len() > 0 {
        lemma_filter_none(s.drop_last(), p);
        lemma_filter_push(s.drop_last(), s.last(), p);
        assert(s.drop_last().push(s.last()) == s);
    } else {
        reveal(Seq::filter);
    }
}

proof fn lemma_filter_weaker(
    s: Seq<Seq<char>>,
    p: spec_fn(Seq<char>) -> bool,
    q: spec_fn(Seq<char>) -> bool,
)
    requires
        forall|i: int| 0 <= i < s.len() ==> p(s[i]) ==> q(s[i]),
    ensures
        s.filter(p).len() <= s.filter(q).len(),
    decreases s.len(),
{
    if s.len() > 0 {
        lemma_filter_weaker(s.drop_last(), p, q);
        lemma_filter_push(s.drop_last(), s.last(), p);
        lemma_filter_push(s.drop_last(), s.last(), q);
        assert(s.drop_last().push(s.last()) == s);
    } else {
        reveal(Seq::filter);
    }
}

/// Searching is a function of the query and the text: two results for the
/// same query and text are the same lines.
pub proof fn search_is_deterministic(
    query: Seq<char>,
    text: Seq<char>,
    first: Seq<Seq<char>>,
    second: Seq<Seq<char>>,
)
    requires
        first == matching_lines(query, text),
        second == matching_lines(query, text),
    ensures
        first == second,
{
}

/// The empty query is in every line, so it selects all lines of the text.
pub proof fn empty_query_selects_all(text: Seq<char>)
    ensures
        matching_lines(Seq::empty(), text) == lines_of(text),
{
    let all = lines_of(text);
    assert forall|i: int| 0 <= i < all.len() implies #[trigger] has(Seq::empty())(all[i]) by {
        let e = Seq::<char>::empty();
        assert(all[i].subrange(0, 0 + e.len() as int) =~= e);
        assert(contains(all[i], e));
    }
    lemma_filter_all(all, has(Seq::empty()));
}

/// A query that is in no line of the text selects nothing.
pub proof fn absent_query_selects_nothing(query: Seq<char>, text: Seq<char>)
    requires
        forall|i: int| 0 <= i < lines_of(text).len() ==> !contains(#[trigger] lines_of(text)[i], query),
    ensures
        matching_lines(query, text).len() == 0,
{
    lemma_filter_none(lines_of(text), has(query));
}

/// Where lowercasing maps the query and each line of the text character by
/// character (by some `fold`), every line that contains the query also
/// contains it without regard to case, so the search without regard to case
/// finds at least as many lines.
pub proof fn folded_search_finds_at_least_as_many(
    query: Seq<char>,
    text: Seq<char>,
    fold: spec_fn(char) -> char,
)
    requires
        lower_of(query) == query.map_values(fold),
        forall|i: int|
            0 <= i < lines_of(text).len() ==> lower_of(#[trigger] lines_of(text)[i])
                == lines_of(text)[i].map_values(fold),
    ensures
        forall|i: int|
            0 <= i < lines_of(text).len() && contains(#[trigger] lines_of(text)[i], query)
                ==> contains(lower_of(lines_of(text)[i]), lower_of(query)),
        matching_lines(query, text).len() <= matching_lines_folded(query, text).len(),
{
    let all = lines_of(text);
    assert forall|i: int| 0 <= i < all.len() && contains(#[trigger] all[i], query) implies contains(
        lower_of(all[i]),
        lower_of(query),
    ) by {
        let l = all[i];
        let k = choose|k: int|
            0 <= k && k + query.len() <= l.len() && #[trigger] l.subrange(k, k + query.len())
                == query;
        assert(lower_of(l).subrange(k, k + query.len()) =~= lower_of(query)) by {
            assert forall|j: int| 0 <= j < query.len() implies lower_of(l)[k + j] == lower_of(
                query,
            )[j] by {
                assert(l.subrange(k, k + query.len())[j] == l[k + j]);
            }
        }
    }
    lemma_filter_weaker(all, has(query), has_folded(query));
}

} // verus!
