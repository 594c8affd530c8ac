//! Lines of a text and substring containment, as sequences of characters.

use vstd::prelude::*;

verus! {

/// The pieces of `s` between newline characters, in order: one more piece
/// than `s` has newlines, each possibly empty.
pub open spec fn pieces(s: Seq<char>) -> Seq<Seq<char>>
    decreases s.len(),
{
    if s.len() == 0 {
        seq![Seq::empty()]
    } else {
        let p = pieces(s.drop_last());
        if s.last() == '\n' {
            p.push(Seq::empty())
        } else {
            p.update(p.len() - 1, p.last().push(s.last()))
        }
    }
}

/// A line that a newline ended, without the carriage return of a `\r\n` ending.
pub open spec fn strip_cr(l: Seq<char>) -> Seq<char> {
    if l.len() > 0 && l.last() == '\r' {
        l.drop_last()
    } else {
        l
    }
}

/// Each of `p` as a line that a newline ended.
pub open spec fn strip_all(p: Seq<Seq<char>>) -> Seq<Seq<char>> {
    p.map_values(|l: Seq<char>| strip_cr(l))
}

/// The lines of `s`: the text between line terminators (`\n` or `\r\n`),
/// where a final terminator opens no further empty line.
pub open spec fn lines_of(s: Seq<char>) -> Seq<Seq<char>> {
    let p = pieces(s);
    let ended = strip_all(p.drop_last());
    if p.last().len() == 0 {
        ended
    } else {
        ended.push(p.last())
    }
}

/// `needle` occurs in `hay` as a contiguous run of characters.
pub open spec fn contains(hay: Seq<char>, needle: Seq<char>) -> bool {
    exists|k: int|
        0 <= k && k + needle.len() <= hay.len() && #[trigger] hay.subrange(k, k + needle.len())
            == needle
}

/// The views of a sequence of string slices.
pub open spec fn views(r: Seq<&str>) -> Seq<Seq<char>> {
    r.map_values(|l: &str| l@)
}

/// The characters of `s`, in order.
pub fn chars_of(s: &str) -> (r: Vec<char>)
    ensures
        r@ == s@,
{
    let mut r: Vec<char> = Vec::new();
    for c in it: s.chars()
        invariant
            r@ == it.seq().take(it.index() as int),
            it.seq() == s@,
    {
        r.push(c);
    }
    r
}

/// Splits `s` into its lines, each a slice of `s`.
pub fn split_lines<'a>(s: &'a str) -> (r: Vec<&'a str>)
    ensures
        views(r@) == lines_of(s@),
{
    let chars = chars_of(s);
    let n = chars.len();
    let mut r: Vec<&'a str> = Vec::new();
    let mut start: usize = 0;
    let mut i: usize = 0;
    let ghost mut done: Seq<Seq<char>> = Seq::empty();
    assert(chars@.take(0) == Seq::<char>::empty());
    assert(chars@.subrange(0, 0) == Seq::<char>::empty());
    assert(views(r@) =~= strip_all(done));
    while i < n
        invariant
            n == chars@.len(),
            chars@ == s@,
            start <= i <= n,
            pieces(chars@.take(i as int)) == done.push(chars@.subrange(start as int, i as int)),
            views(r@) == strip_all(done),
        decreases n - i,
    {
        let c = chars[i];
        let ghost prev = chars@.take(i as int);
        assert(chars@.take(i + 1).drop_last() == prev);
        if c == '\n' {
            let end: usize = if i > start && chars[i - 1] == '\r' {
                i - 1
            } else {
                i
            };
            let line = s.substring_char(start, end);
            let ghost piece = chars@.subrange(start as int, i as int);
            assert(line@ == strip_cr(piece)) by {
                if i > start && chars@[i - 1] == '\r' {
                    assert(piece.drop_last() == chars@.subrange(start as int, end as int));
                }
            }
            let ghost old_views = views(r@);
            r.push(line);
            proof {
                assert(views(r@) =~= old_views.push(line@));
                assert(strip_all(done.push(piece)) =~= strip_all(done).push(strip_cr(piece)));
                done = done.push(piece);
                assert(views(r@) =~= strip_all(done));
                assert(chars@.subrange(i + 1, i + 1) == Seq::<char>::empty());
            }
            start = i + 1;
        } else {
            proof {
                assert(chars@.subrange(start as int, i + 1) == chars@.subrange(
                    start as int,
                    i as int,
                ).push(c));
            }
        }
        i = i + 1;
    }
    assert(chars@.take(n as int) == chars@);
    let ghost p = pieces(s@);
    assert(p.drop_last() == done);
    if start < n {
        let line = s.substring_char(start, n);
        r.push(line);
        assert(views(r@) =~= lines_of(s@));
    } else {
        assert(views(r@) =~= lines_of(s@));
    }
    r
}

/// Whether `needle` occurs in `hay`, by trying each start position in turn.
fn contains_chars(hay: &Vec<char>, needle: &Vec<char>) -> (r: bool)
    ensures
        r == contains(hay@, needle@),
{
    let h = hay.len();
    let n = needle.len();
    if n > h {
        return false;
    }
    let mut k: usize = 0;
    while k <= h - n
        invariant
            h == hay@.len(),
            n == needle@.len(),
            n <= h,
            k <= h - n + 1,
            forall|k2: int| 0 <= k2 < k ==> #[trigger] hay@.subrange(k2, k2 + n) != needle@,
        decreases h - n + 1 - k,
    {
        let mut j: usize = 0;
        let mut same = true;
        while j < n && same
            invariant
                h == hay@.len(),
                n == needle@.len(),
                k + n <= h,
                j <= n,
                same ==> forall|j2: int| 0 <= j2 < j ==> hay@[k + j2] == needle@[j2],
                !same ==> j > 0 && hay@[k + j - 1] != needle@[j - 1],
            decreases n - j,
        {
            if hay[k + j] != needle[j] {
                same = false;
            }
            j = j + 1;
        }
        if same {
            assert(hay@.subrange(k as int, k + n) =~= needle@);
            return true;
        }
        assert(hay@.subrange(k as int, k + n)[j - 1] != needle@[j - 1]);
        k = k + 1;
    }
    false
}

/// Whether `needle` occurs in `hay` as a contiguous run of characters.
pub fn contains_str(hay: &str, needle: &str) -> (r: bool)
    ensures
        r == contains(hay@, needle@),
{
    let h = chars_of(hay);
    let n = chars_of(needle);
    contains_chars(&h, &n)
}

} // verus!
