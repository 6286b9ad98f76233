//! Line splitting and searching, with the meaning of the `str` methods of
//! the same names.

use vstd::prelude::*;

use crate::text::{has_substr, occurs_at, contains_chars, occurs_at_exec};

verus! {

/// The `'\n'`-separated pieces of `s`, the last one possibly empty
/// (`s.split('\n')`).
pub open spec fn pieces(s: Seq<char>) -> Seq<Seq<char>>
    decreases s.len(),
{
    if s.len() == 0 {
        seq![seq![]]
    } else {
        let r = pieces(s.drop_last());
        if s.last() == '\n' {
            r.push(seq![])
        } else {
            r.update(r.len() - 1, r.last().push(s.last()))
        }
    }
}

/// `l` without one trailing `'\r'`.
pub open spec fn strip_cr(l: Seq<char>) -> Seq<char> {
    if l.len() > 0 && l.last() == '\r' {
        l.drop_last()
    } else {
        l
    }
}

/// `str::lines`: the pieces ended by `'\n'` lose one trailing `'\r'`; a
/// final piece without `'\n'` is kept as it is, and dropped when empty.
pub open spec fn lines(s: Seq<char>) -> Seq<Seq<char>> {
    let p = pieces(s);
    let n = p.len() - 1;
    let body = Seq::new(n as nat, |i: int| strip_cr(p[i]));
    if p[n].len() == 0 {
        body
    } else {
        body.push(p[n])
    }
}

/// `pieces` is never empty.
pub proof fn lemma_pieces_nonempty(s: Seq<char>)
    ensures
        pieces(s).len() >= 1,
    decreases s.len(),
{
    if s.len() > 0 {
        lemma_pieces_nonempty(s.drop_last());
    }
}

/// The character vectors' contents.
pub open spec fn char_views(v: Seq<Vec<char>>) -> Seq<Seq<char>> {
    v.map_values(|x: Vec<char>| x@)
}

/// The lines of `s` (see [`lines`]).
pub fn lines_of(s: &Vec<char>) -> (r: Vec<Vec<char>>)
    ensures
        char_views(r@) == lines(s@),
{
    let mut done: Vec<Vec<char>> = Vec::new();
    let mut cur: Vec<char> = Vec::new();
    let mut i: usize = 0;
    assert(s@.subrange(0, 0) =~= seq![]);
    assert(char_views(done@).push(cur@) =~= seq![seq![]]);
    while i < s.len()
        invariant
            i <= s@.len(),
            pieces(s@.subrange(0, i as int)) == char_views(done@).push(cur@),
        decreases s@.len() - i,
    {
        let ghost pre = s@.subrange(0, i as int);
        let ghost post = s@.subrange(0, i + 1);
        proof {
            assert(post.drop_last() =~= pre);
            lemma_pieces_nonempty(pre);
        }
        if s[i] == '\n' {
            let finished = cur;
            done.push(finished);
            cur = Vec::new();
            proof {
                assert(char_views(done@).push(cur@) =~= pieces(pre).push(seq![]));
            }
        } else {
            let ghost old_done = char_views(done@);
            cur.push(s[i]);
            proof {
                assert(char_views(done@) =~= old_done);
                assert(char_views(done@).push(cur@) =~= pieces(pre).update(
                    pieces(pre).len() - 1,
                    pieces(pre).last().push(s@[i as int]),
                ));
            }
        }
        i = i + 1;
    }
    assert(s@.subrange(0, s@.len() as int) =~= s@);
    let ghost p = pieces(s@);
    let mut r: Vec<Vec<char>> = Vec::new();
    let mut j: usize = 0;
    while j < done.len()
        invariant
            j <= done@.len(),
            p == char_views(done@).push(cur@),
            char_views(r@) == Seq::new(j as nat, |k: int| strip_cr(p[k])),
        decreases done@.len() - j,
    {
        let mut line = done[j].clone();
        assert(line@ == p[j as int]);
        let n = line.len();
        if n > 0 && line[n - 1] == '\r' {
            line.pop();
        }
        assert(line@ == strip_cr(p[j as int]));
        let ghost before = char_views(r@);
        let ghost lv = line@;
        r.push(line);
        proof {
            assert(char_views(r@) =~= before.push(lv));
            assert(before.push(lv) =~= Seq::new((j + 1) as nat, |k: int| strip_cr(p[k])));
        }
        j = j + 1;
    }
    if cur.len() > 0 {
        let ghost before = char_views(r@);
        r.push(cur);
        assert(char_views(r@) =~= before.push(p[p.len() - 1]));
    }
    proof {
        assert(char_views(r@) =~= lines(s@));
    }
    r
}

/// The first of `ls` in which `pat` occurs.
pub open spec fn first_with(ls: Seq<Seq<char>>, pat: Seq<char>) -> Option<Seq<char>>
    decreases ls.len(),
{
    if ls.len() == 0 {
        None
    } else if has_substr(ls[0], pat) {
        Some(ls[0])
    } else {
        first_with(ls.drop_first(), pat)
    }
}

/// The last of `ls` in which `pat` occurs.
pub open spec fn last_with(ls: Seq<Seq<char>>, pat: Seq<char>) -> Option<Seq<char>>
    decreases ls.len(),
{
    if ls.len() == 0 {
        None
    } else if has_substr(ls.last(), pat) {
        Some(ls.last())
    } else {
        last_with(ls.drop_last(), pat)
    }
}

/// Index of the first of `ls` in which `pat` occurs.
pub fn find_first_with(ls: &Vec<Vec<char>>, pat: &Vec<char>) -> (r: Option<usize>)
    ensures
        match r {
            Some(i) => i < ls@.len() && first_with(char_views(ls@), pat@) == Some(ls@[i as int]@),
            None => first_with(char_views(ls@), pat@) is None,
        },
{
    let ghost all = char_views(ls@);
    let mut i: usize = 0;
    assert(all.subrange(0, all.len() as int) =~= all);
    while i < ls.len()
        invariant
            i <= ls@.len(),
            all == char_views(ls@),
            first_with(all, pat@) == first_with(all.subrange(i as int, all.len() as int), pat@),
        decreases ls@.len() - i,
    {
        let ghost rest = all.subrange(i as int, all.len() as int);
        assert(rest[0] == ls@[i as int]@);
        assert(rest.drop_first() =~= all.subrange(i + 1, all.len() as int));
        if contains_chars(&ls[i], pat) {
            return Some(i);
        }
        i = i + 1;
    }
    None
}

/// Index of the last of `ls` in which `pat` occurs.
pub fn find_last_with(ls: &Vec<Vec<char>>, pat: &Vec<char>) -> (r: Option<usize>)
    ensures
        match r {
            Some(i) => i < ls@.len() && last_with(char_views(ls@), pat@) == Some(ls@[i as int]@),
            None => last_with(char_views(ls@), pat@) is None,
        },
{
    let ghost all = char_views(ls@);
    let mut i: usize = ls.len();
    assert(all.subrange(0, all.len() as int) =~= all);
    while i > 0
        invariant
            i <= ls@.len(),
            all == char_views(ls@),
            last_with(all, pat@) == last_with(all.subrange(0, i as int), pat@),
        decreases i,
    {
        let ghost front = all.subrange(0, i as int);
        assert(front.last() == ls@[i - 1]@);
        assert(front.drop_last() =~= all.subrange(0, i - 1));
        if contains_chars(&ls[i - 1], pat) {
            return Some(i - 1);
        }
        i = i - 1;
    }
    None
}

/// `k` is the index of the last occurrence of `pat` in `s`, or -1 when
/// there is none.
pub open spec fn is_last_occurrence(s: Seq<char>, pat: Seq<char>, k: int) -> bool {
    (k == -1 && !has_substr(s, pat)) || (occurs_at(s, pat, k) && forall|j: int|
        j > k ==> !#[trigger] occurs_at(s, pat, j))
}

/// Index of the last occurrence of `pat` in `s`, or -1 when it does not
/// occur.
pub open spec fn last_occurrence(s: Seq<char>, pat: Seq<char>) -> int {
    choose|k: int| is_last_occurrence(s, pat, k)
}

/// At most one index is the last occurrence, so [`last_occurrence`] is it.
pub proof fn lemma_last_occurrence(s: Seq<char>, pat: Seq<char>, k: int)
    requires
        is_last_occurrence(s, pat, k),
    ensures
        last_occurrence(s, pat) == k,
{
    let c = last_occurrence(s, pat);
    assert(is_last_occurrence(s, pat, c));
    if c != k {
        if c == -1 {
            assert(has_substr(s, pat));
        } else if k == -1 {
            assert(has_substr(s, pat));
        } else if c < k {
            assert(!occurs_at(s, pat, k));
        } else {
            assert(!occurs_at(s, pat, c));
        }
    }
}

/// The part of `s` after the last occurrence of `pat`, or all of `s`
/// (`s.rsplit(pat).next()`).
pub open spec fn after_last(s: Seq<char>, pat: Seq<char>) -> Seq<char> {
    let k = last_occurrence(s, pat);
    if k < 0 {
        s
    } else {
        s.subrange(k + pat.len(), s.len() as int)
    }
}

/// The index of the last occurrence of `pat` in `s`.
pub fn find_last(s: &Vec<char>, pat: &Vec<char>) -> (r: Option<usize>)
    ensures
        match r {
            Some(k) => occurs_at(s@, pat@, k as int) && last_occurrence(s@, pat@) == k,
            None => !has_substr(s@, pat@) && last_occurrence(s@, pat@) == -1,
        },
{
    if pat.len() > s.len() {
        proof {
            assert(!has_substr(s@, pat@));
            lemma_last_occurrence(s@, pat@, -1);
        }
        return None;
    }
    let mut k: usize = s.len() - pat.len();
    loop
        invariant
            k <= s@.len() - pat@.len(),
            pat@.len() <= s@.len(),
            forall|j: int| j > k ==> !#[trigger] occurs_at(s@, pat@, j),
        decreases k,
    {
        if occurs_at_exec(s, pat, k) {
            proof {
                lemma_last_occurrence(s@, pat@, k as int);
            }
            return Some(k);
        }
        if k == 0 {
            proof {
                assert(!has_substr(s@, pat@));
                lemma_last_occurrence(s@, pat@, -1);
            }
            return None;
        }
        k = k - 1;
    }
}

/// `n` is the index of the last `c` in `s`, or -1 when there is none.
pub open spec fn is_last_index(s: Seq<char>, c: char, n: int) -> bool {
    -1 <= n < s.len() && (n == -1 || s[n] == c) && forall|i: int| n < i < s.len() ==> s[i] != c
}

/// Index of the last `c` in `s`, or -1.
pub open spec fn last_index_of(s: Seq<char>, c: char) -> int {
    choose|n: int| is_last_index(s, c, n)
}

/// `n` characters of `s` come before its first `c` (all of them when there
/// is none).
pub open spec fn is_span(s: Seq<char>, c: char, n: int) -> bool {
    0 <= n <= s.len() && (n == s.len() || s[n] == c) && forall|i: int| 0 <= i < n ==> s[i] != c
}

/// Number of leading characters of `s` before the first `c` (all of `s`
/// when there is none).
pub open spec fn span_until(s: Seq<char>, c: char) -> int {
    choose|n: int| is_span(s, c, n)
}

/// The part of `s` before its first `c` (`s.split(c).next()`).
pub open spec fn before_first(s: Seq<char>, c: char) -> Seq<char> {
    s.subrange(0, span_until(s, c))
}

/// Exec form of [`last_index_of`].
pub fn last_index(s: &Vec<char>, c: char) -> (r: Option<usize>)
    ensures
        match r {
            Some(k) => k < s@.len() && last_index_of(s@, c) == k,
            None => last_index_of(s@, c) == -1,
        },
{
    let mut k: usize = s.len();
    while k > 0
        invariant
            k <= s@.len(),
            forall|i: int| k <= i < s@.len() ==> s@[i] != c,
        decreases k,
    {
        if s[k - 1] == c {
            let found = k - 1;
            proof {
                let w = found as int;
                assert(is_last_index(s@, c, w));
                let m = last_index_of(s@, c);
                assert(is_last_index(s@, c, m));
                if m < w {
                    assert(s@[w] != c);
                } else if m > w {
                    assert(s@[m] != c);
                }
            }
            return Some(found);
        }
        k = k - 1;
    }
    proof {
        assert(is_last_index(s@, c, -1));
        let m = last_index_of(s@, c);
        assert(is_last_index(s@, c, m));
        if m != -1 {
            assert(s@[m] != c);
        }
    }
    None
}

/// Exec form of [`span_until`].
pub fn span(s: &Vec<char>, c: char) -> (n: usize)
    ensures
        n == span_until(s@, c),
        n <= s@.len(),
{
    let mut n: usize = 0;
    while n < s.len() && s[n] != c
        invariant
            n <= s@.len(),
            forall|i: int| 0 <= i < n ==> s@[i] != c,
        decreases s@.len() - n,
    {
        n = n + 1;
    }
    proof {
        let w = n as int;
        assert(is_span(s@, c, w));
        let m = span_until(s@, c);
        assert(is_span(s@, c, m));
        if m < w {
            assert(s@[m] != c);
        } else if m > w {
            assert(s@[w] != c);
        }
    }
    n
}

} // verus!
