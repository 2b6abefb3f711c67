use vstd::prelude::*;

verus! {

/// Inserts `x` into `s`, which runs from the largest key down, after every element whose
/// key is at least as large: among equal keys the earlier insertion stays first.
pub open spec fn insert_desc<T>(s: Seq<T>, x: T, key: spec_fn(T) -> int) -> Seq<T>
    decreases s.len(),
{
    if s.len() == 0 {
        seq![x]
    } else if key(s[0]) >= key(x) {
        seq![s[0]] + insert_desc(s.drop_first(), x, key)
    } else {
        seq![x] + s
    }
}

/// The stable sort of `s` from the largest key down.
pub open spec fn sort_desc<T>(s: Seq<T>, key: spec_fn(T) -> int) -> Seq<T>
    decreases s.len(),
{
    if s.len() == 0 {
        Seq::empty()
    } else {
        insert_desc(sort_desc(s.drop_last(), key), s.last(), key)
    }
}

/// `p` is the first position of `s` whose key is below the key of `x`, or the length.
pub open spec fn first_below<T>(s: Seq<T>, x: T, key: spec_fn(T) -> int, p: int) -> bool {
    &&& 0 <= p <= s.len()
    &&& forall|j: int| 0 <= j < p ==> key(#[trigger] s[j]) >= key(x)
    &&& p < s.len() ==> key(s[p]) < key(x)
}

/// Inserting by `insert_desc` is inserting at the first position whose key is below.
pub proof fn lemma_insert_desc_at<T>(s: Seq<T>, x: T, key: spec_fn(T) -> int, p: int)
    requires
        first_below(s, x, key, p),
    ensures
        insert_desc(s, x, key) == s.insert(p, x),
    decreases s.len(),
{
    if s.len() == 0 {
        assert(seq![x] =~= s.insert(p, x));
    } else if p == 0 {
        assert(seq![x] + s =~= s.insert(0, x));
    } else {
        let t = s.drop_first();
        assert forall|j: int| 0 <= j < p - 1 implies key(#[trigger] t[j]) >= key(x) by {
            assert(t[j] == s[j + 1]);
        }
        if p - 1 < t.len() {
            assert(t[p - 1] == s[p]);
        }
        lemma_insert_desc_at(t, x, key, p - 1);
        assert(seq![s[0]] + t.insert(p - 1, x) =~= s.insert(p, x));
    }
}

/// Whether the keys of `s` never increase.
pub open spec fn sorted_desc<T>(s: Seq<T>, key: spec_fn(T) -> int) -> bool {
    forall|i: int, j: int| 0 <= i < j < s.len() ==> key(s[i]) >= key(s[j])
}

/// The test for a key equal to `k`.
pub open spec fn key_is<T>(key: spec_fn(T) -> int, k: int) -> spec_fn(T) -> bool {
    |y: T| key(y) == k
}

/// Where `insert_desc` places `x` in `s`.
pub open spec fn insert_position<T>(s: Seq<T>, x: T, key: spec_fn(T) -> int) -> int
    decreases s.len(),
{
    if s.len() == 0 {
        0
    } else if key(s[0]) >= key(x) {
        1 + insert_position(s.drop_first(), x, key)
    } else {
        0
    }
}

proof fn lemma_insert_position<T>(s: Seq<T>, x: T, key: spec_fn(T) -> int)
    ensures
        first_below(s, x, key, insert_position(s, x, key)),
        insert_desc(s, x, key) == s.insert(insert_position(s, x, key), x),
    decreases s.len(),
{
    if s.len() == 0 {
        assert(seq![x] =~= s.insert(0, x));
    } else if key(s[0]) >= key(x) {
        let t = s.drop_first();
        lemma_insert_position(t, x, key);
        let q = insert_position(t, x, key);
        assert forall|j: int| 0 <= j < q + 1 implies key(#[trigger] s[j]) >= key(x) by {
            if j > 0 {
                assert(s[j] == t[j - 1]);
            }
        }
        if q + 1 < s.len() {
            assert(s[q + 1] == t[q]);
        }
        assert(seq![s[0]] + t.insert(q, x) =~= s.insert(q + 1, x));
    } else {
        assert(seq![x] + s =~= s.insert(0, x));
    }
}

proof fn lemma_filter_none<T>(s: Seq<T>, pred: spec_fn(T) -> bool)
    requires
        forall|i: int| 0 <= i < s.len() ==> !pred(#[trigger] s[i]),
    ensures
        s.filter(pred) == Seq::<T>::empty(),
{
    broadcast use vstd::seq_lib::group_filter_ensures, Seq::lemma_filter_contains_rev;

    if s.filter(pred).len() > 0 {
        let y = s.filter(pred)[0];
        assert(pred(y));
        assert(s.filter(pred).contains(y));
        assert(s.contains(y));
    }
    assert(s.filter(pred) =~= Seq::<T>::empty());
}

proof fn lemma_filter_push<T>(s: Seq<T>, x: T, pred: spec_fn(T) -> bool)
    ensures
        s.push(x).filter(pred) == if pred(x) { s.filter(pred).push(x) } else { s.filter(pred) },
{
    reveal(Seq::filter);
    assert(s.push(x).drop_last() =~= s);
}

/// `sort_desc` is a stable sort: its result is a permutation of its input, its keys
/// never increase, and the elements of each key keep the order they had.
pub proof fn lemma_sort_desc_is_stable_sort<T>(s: Seq<T>, key: spec_fn(T) -> int)
    ensures
        sort_desc(s, key).to_multiset() == s.to_multiset(),
        sorted_desc(sort_desc(s, key), key),
        forall|k: int| #[trigger] sort_desc(s, key).filter(key_is(key, k)) == s.filter(key_is(key, k)),
    decreases s.len(),
{
    broadcast use vstd::seq_lib::group_to_multiset_ensures, Seq::filter_distributes_over_add;

    if s.len() == 0 {
        reveal(Seq::filter);
    } else {
        let d = s.drop_last();
        let x = s.last();
        assert(d.push(x) =~= s);
        lemma_sort_desc_is_stable_sort(d, key);
        let t = sort_desc(d, key);
        lemma_insert_position(t, x, key);
        let p = insert_position(t, x, key);
        let r = t.insert(p, x);
        assert(sort_desc(s, key) == r);
        assert(r.to_multiset() == t.to_multiset().insert(x));
        assert forall|i: int, j: int| 0 <= i < j < r.len() implies key(r[i]) >= key(r[j]) by {
            if j < p {
                assert(r[i] == t[i] && r[j] == t[j]);
            } else if j == p {
                assert(r[i] == t[i]);
            } else if i < p {
                assert(r[i] == t[i] && r[j] == t[j - 1]);
            } else if i == p {
                assert(r[j] == t[j - 1]);
                assert(key(t[p]) >= key(t[j - 1]) || j - 1 == p);
            } else {
                assert(r[i] == t[i - 1] && r[j] == t[j - 1]);
            }
        }
        let a = t.subrange(0, p);
        let b = t.subrange(p, t.len() as int);
        assert(r =~= a.push(x) + b);
        assert(t =~= a + b);
        assert forall|k: int| #[trigger] r.filter(key_is(key, k)) == s.filter(key_is(key, k)) by {
            let pred = key_is(key, k);
            lemma_filter_push(a, x, pred);
            lemma_filter_push(d, x, pred);
            assert(sort_desc(d, key).filter(key_is(key, k)) == d.filter(key_is(key, k)));
            assert(t.filter(pred) == d.filter(pred));
            assert(s.filter(pred) == d.push(x).filter(pred));
            if k == key(x) {
                assert forall|i: int| 0 <= i < b.len() implies !pred(#[trigger] b[i]) by {
                    assert(0 <= p <= t.len());
                    assert(b[i] == t[p + i]);
                    if i > 0 {
                        assert(key(t[p]) >= key(t[p + i]));
                    }
                }
                lemma_filter_none(b, pred);
                assert(r.filter(pred) == a.filter(pred).push(x) + b.filter(pred));
                assert(t.filter(pred) == a.filter(pred) + b.filter(pred));
                assert(a.filter(pred).push(x) + Seq::<T>::empty() =~= a.filter(pred).push(x));
                assert(a.filter(pred) + Seq::<T>::empty() =~= a.filter(pred));
            } else {
                assert(r.filter(pred) == a.filter(pred) + b.filter(pred));
            }
        }
    }
}

} // verus!
