//! Lexicographic orders on strings and string lists, and the insertion sort
//! that orders them.

use vstd::prelude::*;

use crate::text::chars_of;

verus! {

/// `a <= b` in `str`'s order. Rust compares strings by their UTF-8 bytes,
/// and UTF-8 preserves code-point order, so this is the lexicographic order
/// on code points.
pub open spec fn str_le(a: Seq<char>, b: Seq<char>) -> bool
    decreases a.len(),
{
    if a.len() == 0 {
        true
    } else if b.len() == 0 {
        false
    } else if a[0] != b[0] {
        a[0] < b[0]
    } else {
        str_le(a.drop_first(), b.drop_first())
    }
}

/// `a <= b` in `Vec<String>`'s order: lexicographic over the strings.
pub open spec fn list_le(a: Seq<Seq<char>>, b: Seq<Seq<char>>) -> bool
    decreases a.len(),
{
    if a.len() == 0 {
        true
    } else if b.len() == 0 {
        false
    } else if a[0] != b[0] {
        str_le(a[0], b[0])
    } else {
        list_le(a.drop_first(), b.drop_first())
    }
}

/// Inserts `x` before the first element it is `<=` to.
pub open spec fn ins<T>(s: Seq<T>, x: T, le: spec_fn(T, T) -> bool) -> Seq<T>
    decreases s.len(),
{
    if s.len() == 0 {
        seq![x]
    } else if le(x, s[0]) {
        seq![x] + s
    } else {
        seq![s[0]] + ins(s.drop_first(), x, le)
    }
}

/// Insertion sort: each element, in order, inserted into the sorted prefix.
pub open spec fn isort<T>(s: Seq<T>, le: spec_fn(T, T) -> bool) -> Seq<T>
    decreases s.len(),
{
    if s.len() == 0 {
        seq![]
    } else {
        ins(isort(s.drop_last(), le), s.last(), le)
    }
}

/// `s` is ordered by `le`.
pub open spec fn sorted_by<T>(s: Seq<T>, le: spec_fn(T, T) -> bool) -> bool {
    forall|i: int, j: int| 0 <= i < j < s.len() ==> le(s[i], s[j])
}

/// The string order as a closure.
pub open spec fn str_order() -> spec_fn(Seq<char>, Seq<char>) -> bool {
    |a: Seq<char>, b: Seq<char>| str_le(a, b)
}

/// The list order as a closure.
pub open spec fn list_order() -> spec_fn(Seq<Seq<char>>, Seq<Seq<char>>) -> bool {
    |a: Seq<Seq<char>>, b: Seq<Seq<char>>| list_le(a, b)
}

/// `ins` places `x` at the first position `p` where `x <= s[p]`.
pub proof fn lemma_ins_split<T>(s: Seq<T>, x: T, le: spec_fn(T, T) -> bool, p: int)
    requires
        0 <= p <= s.len(),
        forall|k: int| 0 <= k < p ==> !le(x, #[trigger] s[k]),
        p < s.len() ==> le(x, s[p]),
    ensures
        ins(s, x, le) == s.subrange(0, p) + seq![x] + s.subrange(p, s.len() as int),
    decreases s.len(),
{
    if s.len() == 0 {
        assert(ins(s, x, le) =~= s.subrange(0, p) + seq![x] + s.subrange(p, s.len() as int));
    } else if p == 0 {
        assert(ins(s, x, le) =~= s.subrange(0, p) + seq![x] + s.subrange(p, s.len() as int));
    } else {
        let t = s.drop_first();
        assert forall|k: int| 0 <= k < p - 1 implies !le(x, #[trigger] t[k]) by {
            assert(t[k] == s[k + 1]);
        }
        lemma_ins_split(t, x, le, p - 1);
        assert(ins(s, x, le) =~= s.subrange(0, p) + seq![x] + s.subrange(p, s.len() as int));
    }
}

/// Exec form of [`str_le`].
pub fn str_le_exec(a: &str, b: &str) -> (r: bool)
    ensures
        r == str_le(a@, b@),
{
    let av = chars_of(a);
    let bv = chars_of(b);
    let mut i: usize = 0;
    assert(av@ =~= av@.skip(0));
    assert(bv@ =~= bv@.skip(0));
    while i < av.len() && i < bv.len() && av[i] == bv[i]
        invariant
            i <= av@.len(),
            i <= bv@.len(),
            str_le(av@, bv@) == str_le(av@.skip(i as int), bv@.skip(i as int)),
        decreases av@.len() - i,
    {
        proof {
            assert(av@.skip(i as int).drop_first() =~= av@.skip(i + 1));
            assert(bv@.skip(i as int).drop_first() =~= bv@.skip(i + 1));
        }
        i = i + 1;
    }
    assert(av@ =~= av@.skip(0));
    assert(bv@ =~= bv@.skip(0));
    if i == av.len() {
        true
    } else if i == bv.len() {
        false
    } else {
        av[i] < bv[i]
    }
}

/// Exec form of [`list_le`].
pub fn list_le_exec(a: &Vec<String>, b: &Vec<String>) -> (r: bool)
    ensures
        r == list_le(a@.map_values(|s: String| s@), b@.map_values(|s: String| s@)),
{
    let ghost av = a@.map_values(|s: String| s@);
    let ghost bv = b@.map_values(|s: String| s@);
    let mut i: usize = 0;
    assert(av =~= av.skip(0));
    assert(bv =~= bv.skip(0));
    while i < a.len() && i < b.len() && a[i] == b[i]
        invariant
            av == a@.map_values(|s: String| s@),
            bv == b@.map_values(|s: String| s@),
            i <= a@.len(),
            i <= b@.len(),
            list_le(av, bv) == list_le(av.skip(i as int), bv.skip(i as int)),
        decreases a@.len() - i,
    {
        proof {
            assert(av.skip(i as int).drop_first() =~= av.skip(i + 1));
            assert(bv.skip(i as int).drop_first() =~= bv.skip(i + 1));
        }
        i = i + 1;
    }
    assert(av =~= av.skip(0));
    assert(bv =~= bv.skip(0));
    if i == a.len() {
        true
    } else if i == b.len() {
        false
    } else {
        assert(av.skip(i as int)[0] == av[i as int]);
        assert(bv.skip(i as int)[0] == bv[i as int]);
        str_le_exec(a[i].as_str(), b[i].as_str())
    }
}

/// Sorts strings ascending, as `sort_unstable` on `Vec<String>` would.
pub fn sort_strings(v: Vec<String>) -> (r: Vec<String>)
    ensures
        r@.map_values(|s: String| s@) == isort(v@.map_values(|s: String| s@), str_order()),
{
    let ghost vv = v@.map_values(|s: String| s@);
    let mut r: Vec<String> = Vec::new();
    let mut i: usize = 0;
    while i < v.len()
        invariant
            vv == v@.map_values(|s: String| s@),
            i <= v@.len(),
            r@.map_values(|s: String| s@) == isort(vv.subrange(0, i as int), str_order()),
        decreases v@.len() - i,
    {
        let ghost sorted_before = r@.map_values(|s: String| s@);
        let x = v[i].clone();
        let mut p: usize = 0;
        while p < r.len() && !str_le_exec(x.as_str(), r[p].as_str())
            invariant
                p <= r@.len(),
                sorted_before == r@.map_values(|s: String| s@),
                forall|k: int| 0 <= k < p ==> !str_le(x@, #[trigger] sorted_before[k]),
            decreases r@.len() - p,
        {
            p = p + 1;
        }
        proof {
            lemma_ins_split(sorted_before, x@, str_order(), p as int);
        }
        r.insert(p, x);
        proof {
            let post = vv.subrange(0, i + 1);
            assert(post.drop_last() =~= vv.subrange(0, i as int));
            assert(post.last() == v@[i as int]@);
            assert(r@.map_values(|s: String| s@) =~= sorted_before.subrange(0, p as int) + seq![
                v@[i as int]@] + sorted_before.subrange(p as int, sorted_before.len() as int));
        }
        i = i + 1;
    }
    assert(vv.subrange(0, v@.len() as int) =~= vv);
    r
}

/// Sorts string lists ascending, as `sort_unstable` on `Vec<Vec<String>>`
/// would.
pub fn sort_lists(v: Vec<Vec<String>>) -> (r: Vec<Vec<String>>)
    ensures
        r@.map_values(|l: Vec<String>| l@.map_values(|s: String| s@)) == isort(
            v@.map_values(|l: Vec<String>| l@.map_values(|s: String| s@)),
            list_order(),
        ),
{
    let ghost vv = v@.map_values(|l: Vec<String>| l@.map_values(|s: String| s@));
    let mut r: Vec<Vec<String>> = Vec::new();
    let mut i: usize = 0;
    while i < v.len()
        invariant
            vv == v@.map_values(|l: Vec<String>| l@.map_values(|s: String| s@)),
            i <= v@.len(),
            r@.map_values(|l: Vec<String>| l@.map_values(|s: String| s@)) == isort(
                vv.subrange(0, i as int),
                list_order(),
            ),
        decreases v@.len() - i,
    {
        let ghost sorted_before = r@.map_values(|l: Vec<String>| l@.map_values(|s: String| s@));
        let x = v[i].clone();
        let ghost xv = x@.map_values(|s: String| s@);
        let mut p: usize = 0;
        while p < r.len() && !list_le_exec(&x, &r[p])
            invariant
                p <= r@.len(),
                xv == x@.map_values(|s: String| s@),
                sorted_before == r@.map_values(|l: Vec<String>| l@.map_values(|s: String| s@)),
                forall|k: int| 0 <= k < p ==> !list_le(xv, #[trigger] sorted_before[k]),
            decreases r@.len() - p,
        {
            p = p + 1;
        }
        proof {
            lemma_ins_split(sorted_before, xv, list_order(), p as int);
            assert(xv == vv[i as int]);
        }
        r.insert(p, x);
        proof {
            let post = vv.subrange(0, i + 1);
            assert(post.drop_last() =~= vv.subrange(0, i as int));
            assert(r@.map_values(|l: Vec<String>| l@.map_values(|s: String| s@)) =~= sorted_before.subrange(0, p as int) + seq![
                xv] + sorted_before.subrange(p as int, sorted_before.len() as int));
        }
        i = i + 1;
    }
    assert(vv.subrange(0, v@.len() as int) =~= vv);
    r
}

/// `le` is total and transitive.
pub open spec fn total_preorder<T>(le: spec_fn(T, T) -> bool) -> bool {
    &&& forall|a: T, b: T| #[trigger] le(a, b) || le(b, a)
    &&& forall|a: T, b: T, c: T| #[trigger] le(a, b) && #[trigger] le(b, c) ==> le(a, c)
}

/// `ins` puts `x` somewhere into `s` and moves nothing else.
pub proof fn lemma_ins_is_insert<T>(s: Seq<T>, x: T, le: spec_fn(T, T) -> bool) -> (p: int)
    ensures
        0 <= p <= s.len(),
        ins(s, x, le) == s.insert(p, x),
    decreases s.len(),
{
    if s.len() == 0 {
        assert(ins(s, x, le) =~= s.insert(0, x));
        0
    } else if le(x, s[0]) {
        assert(ins(s, x, le) =~= s.insert(0, x));
        0
    } else {
        let q = lemma_ins_is_insert(s.drop_first(), x, le);
        assert(ins(s, x, le) =~= s.insert(q + 1, x));
        q + 1
    }
}

/// `ins` adds exactly `x` to the multiset of `s`.
pub proof fn lemma_ins_multiset<T>(s: Seq<T>, x: T, le: spec_fn(T, T) -> bool)
    ensures
        ins(s, x, le).to_multiset() == s.to_multiset().insert(x),
{
    broadcast use vstd::seq_lib::group_to_multiset_ensures;
    broadcast use vstd::multiset::group_multiset_properties;

    let p = lemma_ins_is_insert(s, x, le);
    let t = ins(s, x, le);
    assert(t.remove(p) =~= s);
    assert(t[p] == x);
    assert(t.remove(p).to_multiset() =~= t.to_multiset().remove(x));
    assert(t.to_multiset().count(x) > 0) by {
        assert(t.contains(x));
    }
    assert(t.to_multiset() =~= t.to_multiset().remove(x).insert(x));
}

/// Inserting into a sorted sequence keeps it sorted.
pub proof fn lemma_ins_sorted<T>(s: Seq<T>, x: T, le: spec_fn(T, T) -> bool)
    requires
        total_preorder(le),
        sorted_by(s, le),
    ensures
        sorted_by(ins(s, x, le), le),
    decreases s.len(),
{
    if s.len() == 0 {
    } else if le(x, s[0]) {
        let t = ins(s, x, le);
        assert(t =~= seq![x] + s);
        assert forall|i: int, j: int| 0 <= i < j < t.len() implies le(t[i], t[j]) by {
            if i == 0 {
                assert(le(x, s[0]));
                if j > 1 {
                    assert(le(s[0], s[j - 1]));
                }
            } else {
                assert(t[i] == s[i - 1] && t[j] == s[j - 1]);
            }
        }
    } else {
        let rest = s.drop_first();
        assert(sorted_by(rest, le)) by {
            assert forall|i: int, j: int| 0 <= i < j < rest.len() implies le(rest[i], rest[j]) by {
                assert(rest[i] == s[i + 1] && rest[j] == s[j + 1]);
            }
        }
        lemma_ins_sorted(rest, x, le);
        let q = lemma_ins_is_insert(rest, x, le);
        let u = ins(rest, x, le);
        let t = ins(s, x, le);
        assert(t =~= seq![s[0]] + u);
        assert(le(s[0], x) || le(x, s[0]));
        assert forall|i: int, j: int| 0 <= i < j < t.len() implies le(t[i], t[j]) by {
            if i == 0 {
                let k = j - 1;
                if k == q {
                    assert(u[k] == x);
                } else if k < q {
                    assert(u[k] == rest[k]);
                    assert(le(s[0], s[k + 1]));
                } else {
                    assert(u[k] == rest[k - 1]);
                    assert(le(s[0], s[k]));
                }
            } else {
                assert(t[i] == u[i - 1] && t[j] == u[j - 1]);
            }
        }
    }
}

/// Insertion sort keeps every element, as often as it occurs.
pub proof fn lemma_isort_multiset<T>(s: Seq<T>, le: spec_fn(T, T) -> bool)
    ensures
        isort(s, le).to_multiset() == s.to_multiset(),
    decreases s.len(),
{
    broadcast use vstd::seq_lib::group_to_multiset_ensures;

    if s.len() > 0 {
        lemma_isort_multiset(s.drop_last(), le);
        lemma_ins_multiset(isort(s.drop_last(), le), s.last(), le);
        assert(s.drop_last().push(s.last()) =~= s);
    } else {
        assert(isort(s, le) =~= s);
    }
}

/// Insertion sort orders by a total preorder.
pub proof fn lemma_isort_sorted<T>(s: Seq<T>, le: spec_fn(T, T) -> bool)
    requires
        total_preorder(le),
    ensures
        sorted_by(isort(s, le), le),
    decreases s.len(),
{
    if s.len() > 0 {
        lemma_isort_sorted(s.drop_last(), le);
        lemma_ins_sorted(isort(s.drop_last(), le), s.last(), le);
    }
}

/// `str_le` is total.
proof fn lemma_str_le_total(a: Seq<char>, b: Seq<char>)
    ensures
        str_le(a, b) || str_le(b, a),
    decreases a.len(),
{
    if a.len() > 0 && b.len() > 0 {
        if a[0] == b[0] {
            lemma_str_le_total(a.drop_first(), b.drop_first());
        } else {

        }
    }
}

/// `str_le` is transitive.
proof fn lemma_str_le_trans(a: Seq<char>, b: Seq<char>, c: Seq<char>)
    requires
        str_le(a, b),
        str_le(b, c),
    ensures
        str_le(a, c),
    decreases a.len(),
{
    if a.len() > 0 && b.len() > 0 && c.len() > 0 && a[0] == b[0] && b[0] == c[0] {
        lemma_str_le_trans(a.drop_first(), b.drop_first(), c.drop_first());
    }
}

/// `list_le` is total.
proof fn lemma_list_le_total(a: Seq<Seq<char>>, b: Seq<Seq<char>>)
    ensures
        list_le(a, b) || list_le(b, a),
    decreases a.len(),
{
    if a.len() > 0 && b.len() > 0 {
        if a[0] == b[0] {
            lemma_list_le_total(a.drop_first(), b.drop_first());
        } else {
            lemma_str_le_total(a[0], b[0]);
        }
    }
}

/// `str_le` is antisymmetric.
proof fn lemma_str_le_antisym(a: Seq<char>, b: Seq<char>)
    requires
        str_le(a, b),
        str_le(b, a),
    ensures
        a == b,
    decreases a.len(),
{
    if a.len() > 0 && b.len() > 0 {
        lemma_str_le_antisym(a.drop_first(), b.drop_first());
        assert(a =~= seq![a[0]] + a.drop_first());
        assert(b =~= seq![b[0]] + b.drop_first());
    } else if a.len() == 0 && b.len() == 0 {
        assert(a =~= b);
    }
}

/// `list_le` is transitive.
proof fn lemma_list_le_trans(a: Seq<Seq<char>>, b: Seq<Seq<char>>, c: Seq<Seq<char>>)
    requires
        list_le(a, b),
        list_le(b, c),
    ensures
        list_le(a, c),
    decreases a.len(),
{
    if a.len() > 0 && b.len() > 0 && c.len() > 0 {
        if a[0] == b[0] && b[0] == c[0] {
            lemma_list_le_trans(a.drop_first(), b.drop_first(), c.drop_first());
        } else if a[0] == b[0] {
        } else if b[0] == c[0] {
        } else {
            lemma_str_le_trans(a[0], b[0], c[0]);
            if a[0] == c[0] {
                lemma_str_le_antisym(a[0], b[0]);
            }
        }
    }
}

/// `le` relates two values both ways only when they are equal.
pub open spec fn antisymmetric<T>(le: spec_fn(T, T) -> bool) -> bool {
    forall|a: T, b: T| #![trigger le(a, b), le(b, a)] le(a, b) && le(b, a) ==> a == b
}

/// Two sequences ordered by an antisymmetric `le` that hold the same
/// elements, as often each, are the same sequence.
pub proof fn lemma_sorted_unique<T>(a: Seq<T>, b: Seq<T>, le: spec_fn(T, T) -> bool)
    requires
        antisymmetric(le),
        sorted_by(a, le),
        sorted_by(b, le),
        a.to_multiset() == b.to_multiset(),
    ensures
        a == b,
    decreases a.len(),
{
    broadcast use vstd::seq_lib::group_to_multiset_ensures;

    assert(a.to_multiset().len() == a.len());
    assert(b.to_multiset().len() == b.len());
    if a.len() == 0 {
        assert(b.len() == 0);
        assert(a =~= b);
    } else {
        assert(b.len() == a.len());
        assert(a.to_multiset().count(a[0]) > 0) by {
            assert(a.contains(a[0]));
        }
        assert(b.contains(a[0]));
        let k = choose|k: int| 0 <= k < b.len() && b[k] == a[0];
        assert(b.to_multiset().count(b[0]) > 0) by {
            assert(b.contains(b[0]));
        }
        assert(a.contains(b[0]));
        let j = choose|j: int| 0 <= j < a.len() && a[j] == b[0];
        if j > 0 {
            assert(le(a[0], a[j]));
        }
        if k > 0 {
            assert(le(b[0], b[k]));
        }
        if j > 0 && k > 0 {
            assert(le(a[0], b[0]) && le(b[0], a[0]));
        }
        assert(a[0] == b[0]);
        let ra = a.drop_first();
        let rb = b.drop_first();
        assert(ra =~= a.remove(0));
        assert(rb =~= b.remove(0));
        assert(sorted_by(ra, le)) by {
            assert forall|i: int, l: int| 0 <= i < l < ra.len() implies le(ra[i], ra[l]) by {
                assert(ra[i] == a[i + 1] && ra[l] == a[l + 1]);
            }
        }
        assert(sorted_by(rb, le)) by {
            assert forall|i: int, l: int| 0 <= i < l < rb.len() implies le(rb[i], rb[l]) by {
                assert(rb[i] == b[i + 1] && rb[l] == b[l + 1]);
            }
        }
        lemma_sorted_unique(ra, rb, le);
        assert(a =~= seq![a[0]] + ra);
        assert(b =~= seq![b[0]] + rb);
    }
}

/// Insertion sort by a total, antisymmetric order gives one result for
/// every arrangement of the same elements.
pub proof fn lemma_isort_permutation<T>(a: Seq<T>, b: Seq<T>, le: spec_fn(T, T) -> bool)
    requires
        total_preorder(le),
        antisymmetric(le),
        a.to_multiset() == b.to_multiset(),
    ensures
        isort(a, le) == isort(b, le),
{
    lemma_isort_sorted(a, le);
    lemma_isort_sorted(b, le);
    lemma_isort_multiset(a, le);
    lemma_isort_multiset(b, le);
    lemma_sorted_unique(isort(a, le), isort(b, le), le);
}

/// `list_le` is antisymmetric.
proof fn lemma_list_le_antisym(a: Seq<Seq<char>>, b: Seq<Seq<char>>)
    requires
        list_le(a, b),
        list_le(b, a),
    ensures
        a == b,
    decreases a.len(),
{
    if a.len() > 0 && b.len() > 0 {
        if a[0] != b[0] {
            lemma_str_le_antisym(a[0], b[0]);
        }
        lemma_list_le_antisym(a.drop_first(), b.drop_first());
        assert(a =~= seq![a[0]] + a.drop_first());
        assert(b =~= seq![b[0]] + b.drop_first());
    } else if a.len() == 0 && b.len() == 0 {
        assert(a =~= b);
    }
}

/// The string order is total, transitive and antisymmetric.
pub proof fn lemma_str_order_is_total()
    ensures
        total_preorder(str_order()),
        antisymmetric(str_order()),
{
    assert forall|a: Seq<char>, b: Seq<char>| #[trigger] str_order()(a, b) || str_order()(b, a) by {
        lemma_str_le_total(a, b);
    }
    assert forall|a: Seq<char>, b: Seq<char>, c: Seq<char>|
        #[trigger] str_order()(a, b) && #[trigger] str_order()(b, c) implies str_order()(a, c) by {
        lemma_str_le_trans(a, b, c);
    }
    assert forall|a: Seq<char>, b: Seq<char>| #![trigger str_order()(a, b), str_order()(b, a)]
        str_order()(a, b) && str_order()(b, a) implies a == b by {
        lemma_str_le_antisym(a, b);
    }
}

/// The list order is total, transitive and antisymmetric.
pub proof fn lemma_list_order_is_total()
    ensures
        total_preorder(list_order()),
        antisymmetric(list_order()),
{
    assert forall|a: Seq<Seq<char>>, b: Seq<Seq<char>>| #[trigger] list_order()(a, b) || list_order()(b, a) by {
        lemma_list_le_total(a, b);
    }
    assert forall|a: Seq<Seq<char>>, b: Seq<Seq<char>>, c: Seq<Seq<char>>|
        #[trigger] list_order()(a, b) && #[trigger] list_order()(b, c) implies list_order()(a, c) by {
        lemma_list_le_trans(a, b, c);
    }
    assert forall|a: Seq<Seq<char>>, b: Seq<Seq<char>>| #![trigger list_order()(a, b), list_order()(b, a)]
        list_order()(a, b) && list_order()(b, a) implies a == b by {
        lemma_list_le_antisym(a, b);
    }
}

/// Sorting strings orders them and keeps every one.
pub proof fn law_sorted_strings_are_an_ordered_permutation(s: Seq<Seq<char>>)
    ensures
        sorted_by(isort(s, str_order()), str_order()),
        isort(s, str_order()).to_multiset() == s.to_multiset(),
{
    assert(total_preorder(str_order())) by {
        assert forall|a: Seq<char>, b: Seq<char>| #[trigger] str_order()(a, b) || str_order()(b, a) by {
            lemma_str_le_total(a, b);
        }
        assert forall|a: Seq<char>, b: Seq<char>, c: Seq<char>|
            #[trigger] str_order()(a, b) && #[trigger] str_order()(b, c) implies str_order()(a, c) by {
            lemma_str_le_trans(a, b, c);
        }
    }
    lemma_isort_sorted(s, str_order());
    lemma_isort_multiset(s, str_order());
}

/// Sorting string lists orders them and keeps every one.
pub proof fn law_sorted_lists_are_an_ordered_permutation(s: Seq<Seq<Seq<char>>>)
    ensures
        sorted_by(isort(s, list_order()), list_order()),
        isort(s, list_order()).to_multiset() == s.to_multiset(),
{
    assert(total_preorder(list_order())) by {
        assert forall|a: Seq<Seq<char>>, b: Seq<Seq<char>>| #[trigger] list_order()(a, b) || list_order()(b, a) by {
            lemma_list_le_total(a, b);
        }
        assert forall|a: Seq<Seq<char>>, b: Seq<Seq<char>>, c: Seq<Seq<char>>|
            #[trigger] list_order()(a, b) && #[trigger] list_order()(b, c) implies list_order()(a, c) by {
            lemma_list_le_trans(a, b, c);
        }
    }
    lemma_isort_sorted(s, list_order());
    lemma_isort_multiset(s, list_order());
}

} // verus!
