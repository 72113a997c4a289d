//! Stable sorting by an integer key.
use vstd::prelude::*;

verus! {

/// A value that is ordered by an integer key.
pub trait SortKey: Copy {
    /// The key.
    spec fn key(&self) -> int;

    /// Computes the key.
    fn sort_key(&self) -> (k: u64)
        ensures
            k == self.key(),
    ;
}

/// Puts `x` into a sorted sequence, behind what has the same key.
pub open spec fn insert_by_key<T: SortKey>(s: Seq<T>, x: T) -> Seq<T>
    decreases s.len(),
{
    if s.len() == 0 || s.last().key() <= x.key() {
        s.push(x)
    } else {
        insert_by_key(s.drop_last(), x).push(s.last())
    }
}

/// The sequence by increasing key, where what has the same key keeps its order.
pub open spec fn sorted_by_key<T: SortKey>(s: Seq<T>) -> Seq<T>
    decreases s.len(),
{
    if s.len() == 0 {
        s
    } else {
        insert_by_key(sorted_by_key(s.drop_last()), s.last())
    }
}

/// Whether the keys do not decrease.
pub open spec fn is_sorted<T: SortKey>(s: Seq<T>) -> bool {
    forall|i: int, j: int|
        #![trigger s[i], s[j]]
        0 <= i <= j < s.len() ==> s[i].key() <= s[j].key()
}

proof fn lemma_insert_at<T: SortKey>(s: Seq<T>, x: T, at: int)
    requires
        0 <= at <= s.len(),
        at == 0 || s[at - 1].key() <= x.key(),
        forall|j: int| at <= j < s.len() ==> (#[trigger] s[j]).key() > x.key(),
    ensures
        insert_by_key(s, x) == s.insert(at, x),
    decreases s.len(),
{
    if at == s.len() {
        assert(s.insert(at, x) =~= s.push(x));
    } else {
        let init = s.drop_last();
        assert(s.last() == s[s.len() - 1]);
        lemma_insert_at(init, x, at);
        assert(s.insert(at, x) =~= init.insert(at, x).push(s.last()));
    }
}

proof fn lemma_insert<T: SortKey>(s: Seq<T>, x: T)
    requires
        is_sorted(s),
    ensures
        is_sorted(insert_by_key(s, x)),
        insert_by_key(s, x).len() == s.len() + 1,
        insert_by_key(s, x).to_multiset() == s.to_multiset().insert(x),
        forall|i: int|
            0 <= i < insert_by_key(s, x).len() ==> (#[trigger] insert_by_key(s, x)[i]) == x
                || s.contains(insert_by_key(s, x)[i]),
    decreases s.len(),
{
    s.to_multiset_ensures();
    if s.len() == 0 || s.last().key() <= x.key() {
        let r = s.push(x);
        assert forall|i: int| 0 <= i < r.len() implies (#[trigger] r[i]) == x || s.contains(
            r[i],
        ) by {
            if i < s.len() {
                assert(s[i] == r[i]);
            }
        }
    } else {
        let init = s.drop_last();
        lemma_insert(init, x);
        let q = insert_by_key(init, x);
        let r = q.push(s.last());
        assert(init.push(s.last()) =~= s);
        init.to_multiset_ensures();
        q.to_multiset_ensures();
        assert(r.to_multiset() =~= q.to_multiset().insert(s.last()));
        assert(s.to_multiset() =~= init.to_multiset().insert(s.last()));
        assert(r.to_multiset() =~= s.to_multiset().insert(x));
        assert forall|i: int| 0 <= i < q.len() implies (#[trigger] q[i]).key() <= s.last().key() by {
            if q[i] != x {
                let w = choose|w: int| 0 <= w < init.len() && init[w] == q[i];
                assert(s[w].key() <= s[s.len() - 1].key());
            }
        }
        assert forall|i: int| 0 <= i < r.len() implies (#[trigger] r[i]) == x || s.contains(
            r[i],
        ) by {
            if i < q.len() {
                assert(q[i] == r[i]);
                if q[i] != x {
                    let w = choose|w: int| 0 <= w < init.len() && init[w] == q[i];
                    assert(s[w] == q[i]);
                }
            } else {
                assert(s[s.len() - 1] == r[i]);
            }
        }
    }
}

/// Sorting gives a permutation whose keys do not decrease.
pub proof fn lemma_sorted_by_key<T: SortKey>(s: Seq<T>)
    ensures
        is_sorted(sorted_by_key(s)),
        sorted_by_key(s).len() == s.len(),
        sorted_by_key(s).to_multiset() == s.to_multiset(),
    decreases s.len(),
{
    if s.len() > 0 {
        let init = s.drop_last();
        lemma_sorted_by_key(init);
        lemma_insert(sorted_by_key(init), s.last());
        assert(init.push(s.last()) =~= s);
        init.to_multiset_ensures();
        s.to_multiset_ensures();
    }
}

/// What is in a sequence is in the sorted one, and the other way round.
pub proof fn lemma_sorted_contains<T: SortKey>(s: Seq<T>)
    ensures
        forall|x: T| #[trigger] s.contains(x) <==> sorted_by_key(s).contains(x),
{
    lemma_sorted_by_key(s);
    let t = sorted_by_key(s);
    s.to_multiset_ensures();
    t.to_multiset_ensures();
    assert forall|x: T| #[trigger] s.contains(x) <==> t.contains(x) by {
        assert(s.contains(x) <==> s.to_multiset().count(x) > 0);
        assert(t.contains(x) <==> t.to_multiset().count(x) > 0);
    }
}

proof fn lemma_insert_place<T: SortKey>(s: Seq<T>, x: T) -> (at: int)
    ensures
        0 <= at <= s.len(),
        insert_by_key(s, x) == s.insert(at, x),
    decreases s.len(),
{
    if s.len() == 0 || s.last().key() <= x.key() {
        assert(s.insert(s.len() as int, x) =~= s.push(x));
        s.len() as int
    } else {
        let init = s.drop_last();
        let at = lemma_insert_place(init, x);
        assert(s.insert(at, x) =~= init.insert(at, x).push(s.last()));
        at
    }
}

/// Each element has a place of its own in the sorted sequence.
pub proof fn lemma_sorted_places<T: SortKey>(s: Seq<T>) -> (places: Seq<int>)
    ensures
        places.len() == s.len(),
        forall|i: int|
            #![trigger places[i]]
            0 <= i < s.len() ==> 0 <= places[i] < sorted_by_key(s).len() && sorted_by_key(
                s,
            )[places[i]] == s[i],
        forall|i: int, j: int|
            #![trigger places[i], places[j]]
            0 <= i < j < s.len() ==> places[i] != places[j],
    decreases s.len(),
{
    if s.len() == 0 {
        Seq::empty()
    } else {
        let init = s.drop_last();
        let before = lemma_sorted_places(init);
        let at = lemma_insert_place(sorted_by_key(init), s.last());
        let t = sorted_by_key(s);
        assert(t == sorted_by_key(init).insert(at, s.last()));
        let places = Seq::new(
            s.len(),
            |i: int|
                if i == init.len() {
                    at
                } else if before[i] < at {
                    before[i]
                } else {
                    before[i] + 1
                },
        );
        assert forall|i: int| #![trigger places[i]] 0 <= i < s.len() implies 0 <= places[i]
            < t.len() && t[places[i]] == s[i] by {
            if i < init.len() {
                assert(init[i] == s[i]);
                assert(sorted_by_key(init)[before[i]] == init[i]);
            }
        }
        places
    }
}

/// Sorts by increasing key; what has the same key keeps its order.
pub fn sort_by_key<T: SortKey>(items: &Vec<T>) -> (sorted: Vec<T>)
    ensures
        sorted@ == sorted_by_key(items@),
{
    let mut out: Vec<T> = Vec::new();
    let mut i: usize = 0;
    while i < items.len()
        invariant
            i <= items.len(),
            out@ == sorted_by_key(items@.take(i as int)),
            out@.len() == i,
        decreases items.len() - i,
    {
        let x: T = items[i];
        let key: u64 = x.sort_key();
        let mut at: usize = out.len();
        while at > 0 && out[at - 1].sort_key() > key
            invariant
                at <= out.len(),
                key == x.key(),
                forall|j: int| at <= j < out.len() ==> (#[trigger] out@[j]).key() > key,
            decreases at,
        {
            at = at - 1;
        }
        proof {
            lemma_insert_at(out@, x, at as int);
            assert(items@.take(i + 1).drop_last() =~= items@.take(i as int));
        }
        out.insert(at, x);
        i = i + 1;
    }
    assert(items@.take(i as int) =~= items@);
    out
}

}
