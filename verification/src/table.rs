//! Replace-by-key upsert semantics over sequences, shared by every table of
//! the store.
//!
//! A table is modelled as a sequence of rows; an upsert replaces the first
//! row with the same key, or appends the row when no key matches. The lemmas
//! here give the frame conditions and the idempotence that re-running a sync
//! pass relies on.

use vstd::prelude::*;

verus! {

/// Replace the first row whose key equals `key(r)`, or append `r`.
pub open spec fn upsert_seq<R, K>(s: Seq<R>, r: R, key: spec_fn(R) -> K) -> Seq<R>
    decreases s.len(),
{
    if s.len() == 0 {
        seq![r]
    } else if key(s[0]) == key(r) {
        seq![r] + s.drop_first()
    } else {
        seq![s[0]] + upsert_seq(s.drop_first(), r, key)
    }
}

/// The first row whose key is `k`, if any.
pub open spec fn find_by<R, K>(s: Seq<R>, k: K, key: spec_fn(R) -> K) -> Option<R>
    decreases s.len(),
{
    if s.len() == 0 {
        None
    } else if key(s[0]) == k {
        Some(s[0])
    } else {
        find_by(s.drop_first(), k, key)
    }
}

/// No two rows share a key.
pub open spec fn unique_keys<R, K>(s: Seq<R>, key: spec_fn(R) -> K) -> bool {
    forall|i: int, j: int| 0 <= i < j < s.len() ==> key(s[i]) != key(s[j])
}

/// An upsert where rows `0..i` miss the key and row `i` matches it is an
/// update in place.
pub proof fn lemma_upsert_at<R, K>(s: Seq<R>, r: R, key: spec_fn(R) -> K, i: int)
    requires
        0 <= i < s.len(),
        key(s[i]) == key(r),
        forall|j: int| 0 <= j < i ==> key(s[j]) != key(r),
    ensures
        upsert_seq(s, r, key) =~= s.update(i, r),
    decreases i,
{
    if i == 0 {
    } else {
        lemma_upsert_at(s.drop_first(), r, key, i - 1);
        assert(s.drop_first().update(i - 1, r) =~= s.update(i, r).drop_first());
    }
}

/// An upsert whose key is absent is an append.
pub proof fn lemma_upsert_absent<R, K>(s: Seq<R>, r: R, key: spec_fn(R) -> K)
    requires
        forall|j: int| 0 <= j < s.len() ==> key(s[j]) != key(r),
    ensures
        upsert_seq(s, r, key) =~= s.push(r),
    decreases s.len(),
{
    if s.len() == 0 {
    } else {
        lemma_upsert_absent(s.drop_first(), r, key);
        assert(s.drop_first().push(r) =~= s.push(r).drop_first());
    }
}

/// Upserting the same row a second time changes nothing: replaying a page of
/// records against an already current table is a no-op row by row.
pub proof fn lemma_upsert_idempotent<R, K>(s: Seq<R>, r: R, key: spec_fn(R) -> K)
    ensures
        upsert_seq(upsert_seq(s, r, key), r, key) =~= upsert_seq(s, r, key),
    decreases s.len(),
{
    if s.len() == 0 {
    } else if key(s[0]) == key(r) {
        assert((seq![r] + s.drop_first()).drop_first() =~= s.drop_first());
    } else {
        lemma_upsert_idempotent(s.drop_first(), r, key);
        assert((seq![s[0]] + upsert_seq(s.drop_first(), r, key)).drop_first() =~= upsert_seq(
            s.drop_first(),
            r,
            key,
        ));
    }
}

/// A table that already holds exactly the incoming row is left untouched.
pub proof fn lemma_upsert_existing<R, K>(s: Seq<R>, r: R, key: spec_fn(R) -> K)
    requires
        find_by(s, key(r), key) == Some(r),
    ensures
        upsert_seq(s, r, key) =~= s,
    decreases s.len(),
{
    if s.len() == 0 {
    } else if key(s[0]) == key(r) {
        assert(seq![r] + s.drop_first() =~= s);
    } else {
        lemma_upsert_existing(s.drop_first(), r, key);
        assert(seq![s[0]] + s.drop_first() =~= s);
    }
}

/// After an upsert, looking the key up yields the new row; every other key is
/// untouched.
pub proof fn lemma_upsert_find<R, K>(s: Seq<R>, r: R, k: K, key: spec_fn(R) -> K)
    ensures
        find_by(upsert_seq(s, r, key), k, key) == if k == key(r) {
            Some(r)
        } else {
            find_by(s, k, key)
        },
    decreases s.len(),
{
    if s.len() == 0 {
        assert(upsert_seq(s, r, key) =~= seq![r]);
        assert(seq![r].drop_first() =~= Seq::<R>::empty());
        assert(find_by(seq![r].drop_first(), k, key) == None::<R>);
    } else if key(s[0]) == key(r) {
        let u = seq![r] + s.drop_first();
        assert(upsert_seq(s, r, key) == u);
        assert(u[0] == r);
        assert(u.drop_first() =~= s.drop_first());
        if k != key(r) {
            assert(find_by(u, k, key) == find_by(s.drop_first(), k, key));
            assert(find_by(s, k, key) == find_by(s.drop_first(), k, key));
        }
    } else {
        lemma_upsert_find(s.drop_first(), r, k, key);
        let u = seq![s[0]] + upsert_seq(s.drop_first(), r, key);
        assert(upsert_seq(s, r, key) == u);
        assert(u[0] == s[0]);
        assert(u.len() > 0);
        assert(u.drop_first() =~= upsert_seq(s.drop_first(), r, key));
    }
}

/// Key uniqueness survives an upsert.
pub proof fn lemma_upsert_unique<R, K>(s: Seq<R>, r: R, key: spec_fn(R) -> K)
    requires
        unique_keys(s, key),
    ensures
        unique_keys(upsert_seq(s, r, key), key),
{
    if exists|i: int| 0 <= i < s.len() && key(s[i]) == key(r) {
        let i = choose|i: int|
            0 <= i < s.len() && key(s[i]) == key(r) && forall|j: int|
                0 <= j < i ==> key(s[j]) != key(r);
        lemma_first_match(s, key(r), key);
        lemma_upsert_at(s, r, key, i);
    } else {
        lemma_upsert_absent(s, r, key);
    }
}

/// Index of the first element satisfying `p`, or the length when none
/// does: where a descending page scan stops.
pub open spec fn cut_at<T>(s: Seq<T>, p: spec_fn(T) -> bool) -> int
    decreases s.len(),
{
    if s.len() == 0 {
        0
    } else if p(s[0]) {
        0
    } else {
        1 + cut_at(s.drop_first(), p)
    }
}

/// A scan that saw no match before `c`, and a match at `c` unless `c` is
/// the length, found the cut.
pub proof fn lemma_cut_at<T>(s: Seq<T>, p: spec_fn(T) -> bool, c: int)
    requires
        0 <= c <= s.len(),
        forall|j: int| 0 <= j < c ==> !p(s[j]),
        c < s.len() ==> p(s[c]),
    ensures
        cut_at(s, p) == c,
    decreases c,
{
    if c == 0 {
    } else {
        assert(!p(s[0]));
        assert(forall|j: int| 0 <= j < c - 1 ==> s.drop_first()[j] == s[j + 1]);
        assert(c - 1 < s.drop_first().len() ==> p(s.drop_first()[c - 1]));
        lemma_cut_at(s.drop_first(), p, c - 1);
    }
}

/// A scan that matched at `i` after missing everywhere earlier found the
/// first match.
pub proof fn lemma_find_at<R, K>(s: Seq<R>, key: spec_fn(R) -> K, i: int)
    requires
        0 <= i < s.len(),
        forall|j: int| 0 <= j < i ==> key(s[j]) != key(s[i]),
    ensures
        find_by(s, key(s[i]), key) == Some(s[i]),
    decreases i,
{
    if i > 0 {
        lemma_find_at(s.drop_first(), key, i - 1);
        assert(s.drop_first()[i - 1] == s[i]);
    }
}

/// A scan that matched nowhere proves the key absent.
pub proof fn lemma_find_none<R, K>(s: Seq<R>, k: K, key: spec_fn(R) -> K)
    requires
        forall|j: int| 0 <= j < s.len() ==> key(s[j]) != k,
    ensures
        find_by(s, k, key) == None::<R>,
    decreases s.len(),
{
    if s.len() > 0 {
        assert(forall|j: int|
            0 <= j < s.drop_first().len() ==> #[trigger] key(s.drop_first()[j]) == key(s[j + 1]));
        lemma_find_none(s.drop_first(), k, key);
    }
}

/// A property of every row and of the incoming row holds of every row
/// after the upsert.
pub proof fn lemma_upsert_preserves<R, K>(s: Seq<R>, r: R, key: spec_fn(R) -> K, p: spec_fn(R) -> bool)
    requires
        forall|i: int| 0 <= i < s.len() ==> #[trigger] p(s[i]),
        p(r),
    ensures
        forall|i: int|
            0 <= i < upsert_seq(s, r, key).len() ==> #[trigger] p(upsert_seq(s, r, key)[i]),
    decreases s.len(),
{
    let u = upsert_seq(s, r, key);
    if s.len() == 0 {
        assert(forall|i: int| 0 <= i < u.len() ==> u[i] == r);
    } else if key(s[0]) == key(r) {
        assert(forall|i: int| 1 <= i < u.len() ==> u[i] == s[i]);
    } else {
        assert(forall|i: int| 0 <= i < s.drop_first().len() ==> #[trigger] p(s.drop_first()[i]))
            by {
            assert(forall|i: int|
                0 <= i < s.drop_first().len() ==> s.drop_first()[i] == s[i + 1]);
        }
        lemma_upsert_preserves(s.drop_first(), r, key, p);
        let urest = upsert_seq(s.drop_first(), r, key);
        assert(u[0] == s[0]);
        assert(forall|i: int| 1 <= i < u.len() ==> u[i] == urest[i - 1]);
    }
}

/// A filter whose predicate holds everywhere keeps everything.
pub proof fn lemma_filter_all<R>(s: Seq<R>, p: spec_fn(R) -> bool)
    requires
        forall|i: int| 0 <= i < s.len() ==> #[trigger] p(s[i]),
    ensures
        s.filter(p) == s,
    decreases s.len(),
{
    reveal(Seq::filter);
    if s.len() == 0 {
    } else {
        let t = s.drop_last();
        assert(forall|i: int| 0 <= i < t.len() ==> #[trigger] p(t[i])) by {
            assert(forall|i: int| 0 <= i < t.len() ==> t[i] == s[i]);
        }
        lemma_filter_all(t, p);
        assert(p(s.last()));
        assert(t.push(s.last()) =~= s);
    }
}

/// A filter whose predicate holds nowhere keeps nothing.
pub proof fn lemma_filter_none<R>(s: Seq<R>, p: spec_fn(R) -> bool)
    requires
        forall|i: int| 0 <= i < s.len() ==> !#[trigger] p(s[i]),
    ensures
        s.filter(p) == Seq::<R>::empty(),
    decreases s.len(),
{
    reveal(Seq::filter);
    if s.len() == 0 {
        assert(s =~= Seq::<R>::empty());
    } else {
        let t = s.drop_last();
        assert(forall|i: int| 0 <= i < t.len() ==> !#[trigger] p(t[i])) by {
            assert(forall|i: int| 0 <= i < t.len() ==> t[i] == s[i]);
        }
        lemma_filter_none(t, p);
        assert(!p(s.last()));
    }
}

/// Key uniqueness survives a filter.
pub proof fn lemma_filter_unique<R, K>(s: Seq<R>, p: spec_fn(R) -> bool, key: spec_fn(R) -> K)
    requires
        unique_keys(s, key),
    ensures
        unique_keys(s.filter(p), key),
    decreases s.len(),
{
    reveal(Seq::filter);
    if s.len() == 0 {
    } else {
        let t = s.drop_last();
        assert(unique_keys(t, key)) by {
            assert(forall|i: int| 0 <= i < t.len() ==> t[i] == s[i]);
        }
        lemma_filter_unique(t, p, key);
        let sub = t.filter(p);
        if p(s.last()) {
            assert forall|i: int| 0 <= i < sub.len() implies key(sub[i]) != key(s.last()) by {
                assert(sub.contains(sub[i]));
                t.lemma_filter_contains_rev(p, sub[i]);
                let j = choose|j: int| 0 <= j < t.len() && t[j] == sub[i];
                assert(t[j] == s[j]);
                assert(key(s[j]) != key(s[s.len() - 1]));
            }
            assert(s.filter(p) == sub.push(s.last()));
            assert forall|i: int, j: int|
                0 <= i < j < sub.push(s.last()).len() implies key(sub.push(s.last())[i]) != key(
                sub.push(s.last())[j],
            ) by {
                if j < sub.len() {
                    assert(sub.push(s.last())[i] == sub[i]);
                    assert(sub.push(s.last())[j] == sub[j]);
                } else {
                    assert(sub.push(s.last())[i] == sub[i]);
                    assert(sub.push(s.last())[j] == s.last());
                }
            }
        }
    }
}

/// Mapping a function over an updated sequence updates the mapped sequence.
pub proof fn lemma_map_update<A, B>(s: Seq<A>, f: spec_fn(A) -> B, i: int, a: A)
    requires
        0 <= i < s.len(),
    ensures
        s.update(i, a).map_values(f) =~= s.map_values(f).update(i, f(a)),
{
}

/// Mapping a function over a pushed sequence pushes the mapped element.
pub proof fn lemma_map_push<A, B>(s: Seq<A>, f: spec_fn(A) -> B, a: A)
    ensures
        s.push(a).map_values(f) =~= s.map_values(f).push(f(a)),
{
}

/// When some row matches a key there is a first such row.
pub proof fn lemma_first_match<R, K>(s: Seq<R>, k: K, key: spec_fn(R) -> K)
    requires
        exists|i: int| 0 <= i < s.len() && key(s[i]) == k,
    ensures
        exists|i: int|
            0 <= i < s.len() && key(s[i]) == k && forall|j: int| 0 <= j < i ==> key(s[j]) != k,
    decreases s.len(),
{
    if key(s[0]) == k {
        assert(0 <= 0 < s.len() && key(s[0]) == k && forall|j: int| 0 <= j < 0 ==> key(s[j]) != k);
    } else {
        assert(exists|i: int| 0 <= i < s.drop_first().len() && key(s.drop_first()[i]) == k) by {
            let i = choose|i: int| 0 <= i < s.len() && key(s[i]) == k;
            assert(s.drop_first()[i - 1] == s[i]);
        }
        lemma_first_match(s.drop_first(), k, key);
        let i = choose|i: int|
            0 <= i < s.drop_first().len() && key(s.drop_first()[i]) == k && forall|j: int|
                0 <= j < i ==> key(s.drop_first()[j]) != k;
        assert(key(s[i + 1]) == k);
        assert(forall|j: int| 0 <= j < i + 1 ==> key(s[j]) != k) by {
            assert(forall|j: int| 1 <= j < i + 1 ==> s[j] == s.drop_first()[j - 1]);
        }
    }
}

} // verus!
