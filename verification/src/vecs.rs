//! Vectors taken apart by value, and vectors put in order.

use vstd::prelude::*;

verus! {

/// The items of `v`, the last first: popping from the result gives the
/// items of `v` in their order.
pub fn reversed<T>(v: Vec<T>) -> (out: Vec<T>)
    ensures
        out@ == v@.reverse(),
{
    let mut v = v;
    let ghost all = v@;
    let mut out: Vec<T> = Vec::new();
    while v.len() > 0
        invariant
            v@ == all.take(v@.len() as int),
            v@.len() <= all.len(),
            out@ == all.skip(v@.len() as int).reverse(),
        decreases v.len(),
    {
        let x = v.pop().unwrap();
        out.push(x);
        assert(v@ =~= all.take(v@.len() as int));
        assert(out@ =~= all.skip(v@.len() as int).reverse());
    }
    assert(all.skip(0) =~= all);
    out
}

/// Items that are ordered by a key.
pub trait Keyed: Copy {
    /// The key that the item is ordered by.
    spec fn key(&self) -> int;

    /// Whether the key of this item is larger than that of `other`.
    fn comes_after(&self, other: &Self) -> (r: bool)
        ensures
            r == (self.key() > other.key()),
    ;
}

/// `x` put into the ascending list `sorted`, behind every item whose key
/// is not larger.
pub open spec fn inserted<T: Keyed>(sorted: Seq<T>, x: T) -> Seq<T>
    decreases sorted.len(),
{
    if sorted.len() == 0 {
        seq![x]
    } else if sorted.last().key() <= x.key() {
        sorted.push(x)
    } else {
        inserted(sorted.drop_last(), x).push(sorted.last())
    }
}

/// The first `n` of `items` in ascending order of their keys; items with
/// the same key keep their order.
pub open spec fn sorted<T: Keyed>(items: Seq<T>, n: int) -> Seq<T>
    decreases n,
{
    if n <= 0 {
        Seq::empty()
    } else {
        inserted(sorted(items, n - 1), items[n - 1])
    }
}

/// The keys do not fall from one item to the next.
pub open spec fn ascending<T: Keyed>(s: Seq<T>) -> bool {
    forall|i: int, j: int| 0 <= i < j < s.len() ==> (#[trigger] s[i]).key() <= (#[trigger] s[j]).key()
}

proof fn lemma_inserted_at<T: Keyed>(sorted: Seq<T>, x: T, pos: int)
    requires
        0 <= pos <= sorted.len(),
        forall|k: int| pos <= k < sorted.len() ==> (#[trigger] sorted[k]).key() > x.key(),
        pos > 0 ==> sorted[pos - 1].key() <= x.key(),
    ensures
        inserted(sorted, x) == sorted.insert(pos, x),
    decreases sorted.len() - pos,
{
    if pos == sorted.len() {
        assert(sorted.insert(pos, x) =~= sorted.push(x));
        if sorted.len() == 0 {
            assert(sorted.push(x) =~= seq![x]);
        }
    } else {
        let shorter = sorted.drop_last();
        lemma_inserted_at(shorter, x, pos);
        assert(shorter.insert(pos, x).push(sorted.last()) =~= sorted.insert(pos, x));
    }
}

/// Inserting keeps a list ascending, adds exactly `x`, and keeps every
/// other item.
pub proof fn lemma_inserted<T: Keyed>(sorted: Seq<T>, x: T)
    requires
        ascending(sorted),
    ensures
        ascending(inserted(sorted, x)),
        inserted(sorted, x).len() == sorted.len() + 1,
        inserted(sorted, x).to_multiset() == sorted.to_multiset().insert(x),
    decreases sorted.len(),
{
    broadcast use vstd::seq_lib::group_to_multiset_ensures;

    let out = inserted(sorted, x);
    if sorted.len() == 0 {
        assert(out =~= Seq::<T>::empty().push(x));
        assert(sorted =~= Seq::<T>::empty());
    } else if sorted.last().key() <= x.key() {
    } else {
        let shorter = sorted.drop_last();
        lemma_inserted(shorter, x);
        let inner = inserted(shorter, x);
        assert(sorted =~= shorter.push(sorted.last()));
        assert forall|i: int, j: int| 0 <= i < j < out.len() implies (#[trigger] out[i]).key() <= (
        #[trigger] out[j]).key() by {
            if j == out.len() - 1 {
                assert(inner.to_multiset().count(inner[i]) > 0);
                if inner[i] != x {
                    assert(shorter.to_multiset().count(inner[i]) > 0);
                    assert(shorter.contains(inner[i]));
                    let k = choose|k: int| 0 <= k < shorter.len() && shorter[k] == inner[i];
                    assert(sorted[k] == inner[i]);
                }
            }
        }
        assert(inner.push(sorted.last()).to_multiset() =~= shorter.push(
            sorted.last(),
        ).to_multiset().insert(x));
    }
}

/// A sorted list is ascending and holds exactly what was given.
pub proof fn lemma_sorted<T: Keyed>(items: Seq<T>, n: int)
    requires
        0 <= n <= items.len(),
    ensures
        ascending(sorted(items, n)),
        sorted(items, n).len() == n,
        sorted(items, n).to_multiset() == items.take(n).to_multiset(),
    decreases n,
{
    broadcast use vstd::seq_lib::group_to_multiset_ensures;

    if n > 0 {
        lemma_sorted(items, n - 1);
        lemma_inserted(sorted(items, n - 1), items[n - 1]);
        assert(items.take(n) =~= items.take(n - 1).push(items[n - 1]));
    } else {
        assert(items.take(0) =~= Seq::<T>::empty());
    }
}

/// Sorts by key, ascending; items with the same key keep their order.
pub fn sort<T: Keyed>(items: &Vec<T>) -> (out: Vec<T>)
    ensures
        out@ == sorted(items@, items@.len() as int),
        out@.len() == items@.len(),
        ascending(out@),
        out@.to_multiset() == items@.to_multiset(),
{
    proof {
        lemma_sorted(items@, items@.len() as int);
        assert(items@.take(items@.len() as int) =~= items@);
    }
    let mut out: Vec<T> = Vec::new();
    let mut i: usize = 0;
    while i < items.len()
        invariant
            i <= items.len(),
            out@ == sorted(items@, i as int),
            out@.len() == i,
        decreases items.len() - i,
    {
        let x = items[i];
        let mut pos: usize = out.len();
        while pos > 0 && out[pos - 1].comes_after(&x)
            invariant
                pos <= out.len(),
                forall|k: int| pos <= k < out@.len() ==> (#[trigger] out@[k]).key() > x.key(),
            decreases pos,
        {
            pos -= 1;
        }
        proof {
            lemma_inserted_at(out@, x, pos as int);
        }
        out.insert(pos, x);
        i += 1;
    }
    out
}

} // verus!
