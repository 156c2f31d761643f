use vstd::prelude::*;

verus! {

/// Strict lexicographic order on character sequences, comparing code points;
/// for strings this is the order of their UTF-8 bytes, i.e. `str`'s `Ord`.
pub open spec fn chars_lt(a: Seq<char>, b: Seq<char>) -> bool
    decreases a.len(),
{
    if a.len() == 0 {
        b.len() > 0
    } else if b.len() == 0 {
        false
    } else if a[0] != b[0] {
        a[0] < b[0]
    } else {
        chars_lt(a.drop_first(), b.drop_first())
    }
}

/// Non-strict version of `chars_lt`.
pub open spec fn chars_le(a: Seq<char>, b: Seq<char>) -> bool {
    !chars_lt(b, a)
}

proof fn lemma_seq_head_tail(a: Seq<char>, b: Seq<char>)
    requires
        a.len() > 0,
        b.len() > 0,
        a[0] == b[0],
        a.drop_first() == b.drop_first(),
    ensures
        a == b,
{
    assert(a =~= seq![a[0]] + a.drop_first());
    assert(b =~= seq![b[0]] + b.drop_first());
}

proof fn lemma_chars_lt_irreflexive(a: Seq<char>)
    ensures
        !chars_lt(a, a),
    decreases a.len(),
{
    if a.len() > 0 {
        lemma_chars_lt_irreflexive(a.drop_first());
    }
}

proof fn lemma_chars_lt_asymmetric(a: Seq<char>, b: Seq<char>)
    ensures
        chars_lt(a, b) ==> !chars_lt(b, a),
    decreases a.len(),
{
    if a.len() > 0 && b.len() > 0 && a[0] == b[0] {
        lemma_chars_lt_asymmetric(a.drop_first(), b.drop_first());
    }
}

proof fn lemma_chars_lt_total(a: Seq<char>, b: Seq<char>)
    ensures
        a != b ==> chars_lt(a, b) || chars_lt(b, a),
    decreases a.len(),
{
    if a.len() > 0 && b.len() > 0 {
        if a[0] == b[0] {
            lemma_chars_lt_total(a.drop_first(), b.drop_first());
            if a.drop_first() == b.drop_first() {
                lemma_seq_head_tail(a, b);
            }
        }
    } else if a.len() == 0 && b.len() == 0 {
        assert(a =~= b);
    }
}

proof fn lemma_chars_lt_transitive(a: Seq<char>, b: Seq<char>, c: Seq<char>)
    ensures
        chars_lt(a, b) && chars_lt(b, c) ==> chars_lt(a, c),
    decreases a.len(),
{
    if a.len() > 0 && b.len() > 0 && c.len() > 0 {
        lemma_chars_lt_transitive(a.drop_first(), b.drop_first(), c.drop_first());
    }
}

/// `chars_lt` is a strict total order.
pub proof fn lemma_chars_lt_order(a: Seq<char>, b: Seq<char>, c: Seq<char>)
    ensures
        !chars_lt(a, a),
        chars_lt(a, b) ==> !chars_lt(b, a),
        a != b ==> chars_lt(a, b) || chars_lt(b, a),
        chars_lt(a, b) && chars_lt(b, c) ==> chars_lt(a, c),
{
    lemma_chars_lt_irreflexive(a);
    lemma_chars_lt_asymmetric(a, b);
    lemma_chars_lt_total(a, b);
    lemma_chars_lt_transitive(a, b, c);
}

/// Lexicographic comparison of two strings (as `a < b` on `str`).
pub fn str_lt(a: &str, b: &str) -> (r: bool)
    ensures
        r == chars_lt(a@, b@),
{
    let n = a.unicode_len();
    let m = b.unicode_len();
    let mut i: usize = 0;
    assert(a@.skip(0) =~= a@);
    assert(b@.skip(0) =~= b@);
    while i < n && i < m
        invariant
            i <= n,
            i <= m,
            n == a@.len(),
            m == b@.len(),
            forall|j: int| 0 <= j < i ==> a@[j] == b@[j],
            chars_lt(a@, b@) == chars_lt(a@.skip(i as int), b@.skip(i as int)),
        decreases n - i,
    {
        let x = a.get_char(i);
        let y = b.get_char(i);
        assert(a@.skip(i as int)[0] == x);
        assert(b@.skip(i as int)[0] == y);
        if x != y {
            return x < y;
        }
        assert(a@.skip(i as int).drop_first() =~= a@.skip(i + 1));
        assert(b@.skip(i as int).drop_first() =~= b@.skip(i + 1));
        i = i + 1;
    }
    i == n && i < m
}

/// Whether two strings are equal.
pub fn str_eq(a: &str, b: &str) -> (r: bool)
    ensures
        r == (a@ == b@),
{
    let n = a.unicode_len();
    if n != b.unicode_len() {
        return false;
    }
    let mut i: usize = 0;
    while i < n
        invariant
            i <= n,
            n == a@.len(),
            n == b@.len(),
            forall|j: int| 0 <= j < i ==> a@[j] == b@[j],
        decreases n - i,
    {
        if a.get_char(i) != b.get_char(i) {
            return false;
        }
        i = i + 1;
    }
    assert(a@ =~= b@);
    true
}

/// Items that can be ordered by a string key.
pub trait SortKey: View + Sized {
    spec fn sort_key(&self) -> Seq<char>;

    fn key(&self) -> (r: &str)
        ensures
            r@ == self.sort_key(),
    ;
}

impl SortKey for String {
    open spec fn sort_key(&self) -> Seq<char> {
        self@
    }

    fn key(&self) -> (r: &str) {
        self.as_str()
    }
}

/// The views of the items, in order.
pub open spec fn views<T: View>(s: Seq<T>) -> Seq<T::V> {
    s.map_values(|x: T| x@)
}

/// Items in non-decreasing key order.
pub open spec fn sorted_by_key<T: SortKey>(s: Seq<T>) -> bool {
    forall|i: int, j: int| 0 <= i < j < s.len() ==> chars_le(s[i].sort_key(), s[j].sort_key())
}

/// The first position from `i` on whose key is greater than `key`, or the
/// end: where an insertion sort puts an item with that key, after every
/// item with an equal key.
pub open spec fn insertion_point<T: SortKey>(s: Seq<T>, key: Seq<char>, i: int) -> int
    decreases s.len() - i,
{
    if i >= s.len() {
        s.len() as int
    } else if chars_lt(key, s[i].sort_key()) {
        i
    } else {
        insertion_point(s, key, i + 1)
    }
}

/// The stable sort of `s` by key: each item in turn is inserted after the
/// items already placed whose key is not greater than its own.
pub open spec fn spec_sort_by_key<T: SortKey>(s: Seq<T>) -> Seq<T>
    decreases s.len(),
{
    if s.len() == 0 {
        s
    } else {
        let t = spec_sort_by_key(s.drop_last());
        t.insert(insertion_point(t, s.last().sort_key(), 0), s.last())
    }
}

proof fn lemma_insert_multiset<V>(s: Seq<V>, p: int, x: V)
    requires
        0 <= p <= s.len(),
    ensures
        s.insert(p, x).to_multiset() =~= s.to_multiset().insert(x),
{
    broadcast use vstd::seq_lib::group_seq_properties;

    let t = s.insert(p, x);
    assert(t.remove(p) =~= s);
    t.to_multiset_ensures();
    assert(t[p] == x);
    assert(t.to_multiset().count(x) > 0) by {
        assert(t.contains(x));
    }
}

proof fn lemma_insertion_point_bounds<T: SortKey>(s: Seq<T>, key: Seq<char>, i: int)
    requires
        0 <= i <= s.len(),
    ensures
        i <= insertion_point(s, key, i) <= s.len(),
    decreases s.len() - i,
{
    if i < s.len() && !chars_lt(key, s[i].sort_key()) {
        lemma_insertion_point_bounds(s, key, i + 1);
    }
}

/// Sorting only reorders: every item of the sorted sequence comes from the
/// input, and any projection of the items keeps its multiset.
pub proof fn lemma_sort_by_key_permutes<T: SortKey, B>(s: Seq<T>, f: spec_fn(T) -> B)
    ensures
        spec_sort_by_key(s).len() == s.len(),
        forall|i: int|
            0 <= i < s.len() ==> s.contains(#[trigger] spec_sort_by_key(s)[i]),
        spec_sort_by_key(s).map_values(f).to_multiset() == s.map_values(f).to_multiset(),
    decreases s.len(),
{
    if s.len() > 0 {
        let init = s.drop_last();
        let x = s.last();
        lemma_sort_by_key_permutes(init, f);
        let t = spec_sort_by_key(init);
        let p = insertion_point(t, x.sort_key(), 0);
        lemma_insertion_point_bounds(t, x.sort_key(), 0);
        let u = t.insert(p, x);
        assert(spec_sort_by_key(s) == u);
        assert forall|i: int| 0 <= i < s.len() implies s.contains(#[trigger] u[i]) by {
            if i < p {
                assert(init.contains(t[i]));
                let j = choose|j: int| 0 <= j < init.len() && init[j] == t[i];
                assert(s[j] == u[i]);
            } else if i == p {
                assert(s[s.len() - 1] == u[i]);
            } else {
                assert(u[i] == t[i - 1]);
                assert(init.contains(t[i - 1]));
                let j = choose|j: int| 0 <= j < init.len() && init[j] == t[i - 1];
                assert(s[j] == u[i]);
            }
        }
        assert(u.map_values(f) =~= t.map_values(f).insert(p, f(x)));
        lemma_insert_multiset(t.map_values(f), p, f(x));
        assert(s.map_values(f) =~= init.map_values(f).insert(init.len() as int, f(x)));
        lemma_insert_multiset(init.map_values(f), init.len() as int, f(x));
    }
}

/// Sorts items by key, keeping items with equal keys in their original
/// order (an insertion sort).
pub fn sort_by_key<T: SortKey>(v: Vec<T>) -> (r: Vec<T>)
    ensures
        r@ == spec_sort_by_key(v@),
        sorted_by_key(r@),
        views(r@).to_multiset() == views(v@).to_multiset(),
{
    broadcast use vstd::seq_lib::group_seq_properties;

    let mut rest = v;
    let mut out: Vec<T> = Vec::new();
    let ghost mut k: int = 0;
    assert(views(out@) =~= Seq::<T::V>::empty());
    assert(views(rest@) =~= views(v@));
    assert(v@.skip(0) =~= v@);
    assert(v@.take(0) =~= Seq::<T>::empty());
    while rest.len() > 0
        invariant
            0 <= k <= v@.len(),
            rest@ == v@.skip(k),
            out@ == spec_sort_by_key(v@.take(k)),
            sorted_by_key(out@),
            views(out@).to_multiset().add(views(rest@).to_multiset()) == views(v@).to_multiset(),
        decreases rest.len(),
    {
        let ghost rest_before = rest@;
        let x = rest.remove(0);
        proof {
            assert(views(rest_before).remove(0) =~= views(rest@));
            views(rest_before).to_multiset_ensures();
            assert(x == v@[k]);
            assert(rest@ =~= v@.skip(k + 1));
        }
        let n = out.len();
        let mut p: usize = 0;
        while p < n && !str_lt(x.key(), out[p].key())
            invariant
                p <= n,
                n == out@.len(),
                forall|q: int| 0 <= q < p ==> chars_le(out@[q].sort_key(), x.sort_key()),
                insertion_point(out@, x.sort_key(), p as int) == insertion_point(
                    out@,
                    x.sort_key(),
                    0,
                ),
            decreases n - p,
        {
            p = p + 1;
        }
        let ghost before = out@;
        out.insert(p, x);
        proof {
            assert(v@.take(k + 1).drop_last() =~= v@.take(k));
            assert(v@.take(k + 1).last() == x);
            assert(out@ == spec_sort_by_key(v@.take(k + 1)));
            k = k + 1;
            assert(views(out@) =~= views(before).insert(p as int, x@));
            lemma_insert_multiset(views(before), p as int, x@);
            assert forall|i: int, j: int| 0 <= i < j < out@.len() implies chars_le(
                out@[i].sort_key(),
                out@[j].sort_key(),
            ) by {
                if j < p {
                    assert(out@[i] == before[i] && out@[j] == before[j]);
                } else if i < p && j == p {
                    assert(out@[i] == before[i]);
                } else if i < p {
                    assert(out@[i] == before[i] && out@[j] == before[j - 1]);
                } else if i == p {
                    assert(out@[j] == before[j - 1]);
                    let a = x.sort_key();
                    let b = before[p as int].sort_key();
                    let c = before[j - 1].sort_key();
                    assert(chars_lt(a, b));
                    lemma_chars_lt_order(a, b, c);
                    lemma_chars_lt_order(b, c, a);
                    lemma_chars_lt_order(a, c, b);
                    if j - 1 > p {
                        assert(chars_le(b, c));
                    }
                } else {
                    assert(out@[i] == before[i - 1] && out@[j] == before[j - 1]);
                }
            }
        }
    }
    assert(views(rest@) =~= Seq::<T::V>::empty());
    assert(v@.take(k) =~= v@);
    out
}

} // verus!
