//! Ordering and cursor arithmetic of one poll cycle: the maximum updated-at
//! over a fetched batch, and the stable ascending sort that fixes delivery
//! order.

use vstd::prelude::*;

use crate::notification::Notification;

verus! {

/// The maximum updated-at over a batch, `None` for an empty batch.
pub open spec fn spec_max_updated(s: Seq<Notification>) -> Option<i64>
    decreases s.len(),
{
    if s.len() == 0 {
        None
    } else {
        match spec_max_updated(s.drop_last()) {
            None => Some(s.last().updated_at),
            Some(m) => Some(
                if s.last().updated_at > m {
                    s.last().updated_at
                } else {
                    m
                },
            ),
        }
    }
}

/// The computed maximum is the maximum of the whole batch: every item is at
/// or below it, and some item attains it, whatever its read state.
pub proof fn lemma_max_updated_is_max(s: Seq<Notification>)
    requires
        s.len() > 0,
    ensures
        spec_max_updated(s) is Some,
        forall|i: int| 0 <= i < s.len() ==> s[i].updated_at <= spec_max_updated(s)->Some_0,
        exists|i: int| 0 <= i < s.len() && s[i].updated_at == spec_max_updated(s)->Some_0,
    decreases s.len(),
{
    let m = spec_max_updated(s)->Some_0;
    if s.len() == 1 {
        assert(s[0] == s.last());
    } else {
        lemma_max_updated_is_max(s.drop_last());
        let rest = spec_max_updated(s.drop_last())->Some_0;
        assert(forall|i: int| 0 <= i < s.len() - 1 ==> s[i] == s.drop_last()[i]);
        if s.last().updated_at > rest {
            assert(s[s.len() - 1].updated_at == m);
        } else {
            let j = choose|j: int|
                0 <= j < s.drop_last().len() && s.drop_last()[j].updated_at == rest;
            assert(s[j].updated_at == m);
        }
    }
}

/// The maximum is a property of the batch as a multiset: any reordering of
/// the same items computes the same value.
pub proof fn lemma_max_updated_permutation(a: Seq<Notification>, b: Seq<Notification>)
    requires
        a.to_multiset() == b.to_multiset(),
    ensures
        spec_max_updated(a) == spec_max_updated(b),
{
    a.to_multiset_ensures();
    b.to_multiset_ensures();
    if a.len() == 0 {
        assert(b.len() == 0);
    } else {
        assert(b.len() > 0);
        lemma_max_updated_is_max(a);
        lemma_max_updated_is_max(b);
        let ma = spec_max_updated(a)->Some_0;
        let mb = spec_max_updated(b)->Some_0;
        let ia = choose|i: int| 0 <= i < a.len() && a[i].updated_at == ma;
        assert(a.to_multiset().count(a[ia]) > 0);
        assert(b.contains(a[ia]));
        let ja = choose|j: int| 0 <= j < b.len() && b[j] == a[ia];
        assert(ma <= mb);
        let ib = choose|i: int| 0 <= i < b.len() && b[i].updated_at == mb;
        assert(b.to_multiset().count(b[ib]) > 0);
        assert(a.contains(b[ib]));
        let jb = choose|j: int| 0 <= j < a.len() && a[j] == b[ib];
        assert(mb <= ma);
    }
}

/// Sorting the batch does not change its maximum updated-at.
pub proof fn lemma_max_updated_sort_invariant(s: Seq<Notification>)
    ensures
        spec_max_updated(stable_sorted(s)) == spec_max_updated(s),
{
    lemma_stable_sorted_props(s);
    lemma_max_updated_permutation(stable_sorted(s), s);
}

/// Computes the maximum updated-at over all fetched notifications, before any
/// filtering, so that read items still advance the cursor.
pub fn max_updated_at(items: &Vec<Notification>) -> (r: Option<i64>)
    ensures
        r == spec_max_updated(items@),
{
    let mut r: Option<i64> = None;
    let mut i: usize = 0;
    while i < items.len()
        invariant
            i <= items@.len(),
            r == spec_max_updated(items@.take(i as int)),
        decreases items@.len() - i,
    {
        let u = items[i].updated_at;
        r = match r {
            None => Some(u),
            Some(m) => if u > m {
                Some(u)
            } else {
                Some(m)
            },
        };
        proof {
            assert(items@.take(i + 1).drop_last() =~= items@.take(i as int));
            assert(items@.take(i + 1).last() == items@[i as int]);
        }
        i = i + 1;
    }
    proof {
        assert(items@.take(items@.len() as int) =~= items@);
    }
    r
}

/// Non-decreasing by updated-at.
pub open spec fn sorted_by_updated(s: Seq<Notification>) -> bool {
    forall|i: int, j: int| 0 <= i < j < s.len() ==> s[i].updated_at <= s[j].updated_at
}

/// Places `x` after every element at or below its updated-at: the insertion
/// step of a stable ascending sort.
pub open spec fn insert_ordered(s: Seq<Notification>, x: Notification) -> Seq<Notification>
    decreases s.len(),
{
    if s.len() == 0 {
        seq![x]
    } else if s.last().updated_at <= x.updated_at {
        s.push(x)
    } else {
        insert_ordered(s.drop_last(), x).push(s.last())
    }
}

/// The stable ascending sort of a batch by updated-at.
pub open spec fn stable_sorted(s: Seq<Notification>) -> Seq<Notification>
    decreases s.len(),
{
    if s.len() == 0 {
        Seq::empty()
    } else {
        insert_ordered(stable_sorted(s.drop_last()), s.last())
    }
}

/// Inserting into a sorted sequence keeps it sorted, adds exactly the new
/// element to the contents, and introduces no foreign element.
proof fn lemma_insert_ordered_props(s: Seq<Notification>, x: Notification)
    requires
        sorted_by_updated(s),
    ensures
        insert_ordered(s, x).len() == s.len() + 1,
        sorted_by_updated(insert_ordered(s, x)),
        insert_ordered(s, x).to_multiset() == s.to_multiset().insert(x),
        forall|i: int|
            0 <= i < insert_ordered(s, x).len() ==> insert_ordered(s, x)[i] == x || s.contains(
                #[trigger] insert_ordered(s, x)[i],
            ),
    decreases s.len(),
{
    s.to_multiset_ensures();
    let r = insert_ordered(s, x);
    if s.len() == 0 {
        assert(Seq::<Notification>::empty().push(x) =~= seq![x]);
        Seq::<Notification>::empty().to_multiset_ensures();
        assert(seq![x].to_multiset() =~= s.to_multiset().insert(x));
    } else if s.last().updated_at <= x.updated_at {
        assert(forall|i: int| 0 <= i < s.len() ==> s[i].updated_at <= s.last().updated_at);
        assert(forall|i: int| 0 <= i < s.len() ==> r[i] == s[i] && s.contains(s[i]));
    } else {
        let dl = s.drop_last();
        assert(sorted_by_updated(dl)) by {
            assert(forall|i: int| 0 <= i < dl.len() ==> dl[i] == s[i]);
        }
        lemma_insert_ordered_props(dl, x);
        let q = insert_ordered(dl, x);
        dl.to_multiset_ensures();
        q.to_multiset_ensures();
        // contents: q.push(s.last()) adds s.last() back
        assert(s =~= dl.push(s.last()));
        assert(r.to_multiset() =~= s.to_multiset().insert(x)) by {
            assert(r.to_multiset() =~= q.to_multiset().insert(s.last()));
            assert(s.to_multiset() =~= dl.to_multiset().insert(s.last()));
        }
        // sortedness: every element of q is x or from dl, both at or below s.last()
        assert(forall|i: int| 0 <= i < dl.len() ==> dl[i].updated_at <= s.last().updated_at);
        assert forall|i: int| 0 <= i < q.len() implies q[i].updated_at <= s.last().updated_at by {
            if q[i] != x {
                let k = choose|k: int| 0 <= k < dl.len() && dl[k] == q[i];
            }
        }
        assert(forall|i: int| 0 <= i < q.len() ==> r[i] == q[i]);
        assert(r[r.len() - 1] == s.last());
        // no foreign element
        assert forall|i: int| 0 <= i < r.len() implies r[i] == x || s.contains(r[i]) by {
            if i < q.len() {
                if q[i] != x {
                    let k = choose|k: int| 0 <= k < dl.len() && dl[k] == q[i];
                    assert(s[k] == q[i]);
                }
            } else {
                assert(r[i] == s[s.len() - 1]);
            }
        }
    }
}

/// The stable sort is a sorted permutation of its input.
pub proof fn lemma_stable_sorted_props(s: Seq<Notification>)
    ensures
        stable_sorted(s).len() == s.len(),
        sorted_by_updated(stable_sorted(s)),
        stable_sorted(s).to_multiset() == s.to_multiset(),
    decreases s.len(),
{
    s.to_multiset_ensures();
    if s.len() == 0 {
        assert(s =~= Seq::<Notification>::empty());
    } else {
        let dl = s.drop_last();
        lemma_stable_sorted_props(dl);
        lemma_insert_ordered_props(stable_sorted(dl), s.last());
        dl.to_multiset_ensures();
        stable_sorted(dl).to_multiset_ensures();
        assert(s =~= dl.push(s.last()));
        assert(stable_sorted(s).to_multiset() =~= s.to_multiset()) by {
            assert(stable_sorted(s).to_multiset() == stable_sorted(dl).to_multiset().insert(
                s.last(),
            ));
            assert(stable_sorted(dl).to_multiset() == dl.to_multiset());
            assert(dl.push(s.last()).to_multiset() =~= dl.to_multiset().insert(s.last()));
            assert(s.to_multiset() == dl.push(s.last()).to_multiset());
        }
    }
}

/// Inserting `x` splices it in and moves nothing else: among the elements of
/// any one updated-at value, the original order survives, with `x` at the
/// end of its own value's run.
proof fn lemma_insert_ordered_filter(s: Seq<Notification>, x: Notification, t: i64)
    ensures
        insert_ordered(s, x).filter(|n: Notification| n.updated_at == t) == if x.updated_at == t {
            s.filter(|n: Notification| n.updated_at == t).push(x)
        } else {
            s.filter(|n: Notification| n.updated_at == t)
        },
    decreases s.len(),
{
    broadcast use vstd::prelude::Seq::lemma_filter_push;

    let pred = |n: Notification| n.updated_at == t;
    if s.len() == 0 {
        assert(seq![x] =~= Seq::<Notification>::empty().push(x));
        reveal(Seq::filter);
        assert(Seq::<Notification>::empty().filter(pred) =~= Seq::<Notification>::empty());
    } else if s.last().updated_at <= x.updated_at {
        assert(s.push(x).filter(pred) == if pred(x) {
            s.filter(pred).push(x)
        } else {
            s.filter(pred)
        });
    } else {
        let dl = s.drop_last();
        lemma_insert_ordered_filter(dl, x, t);
        let q = insert_ordered(dl, x);
        assert(q.push(s.last()).filter(pred) == if pred(s.last()) {
            q.filter(pred).push(s.last())
        } else {
            q.filter(pred)
        });
        assert(s =~= dl.push(s.last()));
        assert(s.filter(pred) == if pred(s.last()) {
            dl.filter(pred).push(s.last())
        } else {
            dl.filter(pred)
        });
        // x sits strictly below s.last(), so x and s.last() never share t
        if x.updated_at == t {
            assert(!pred(s.last()));
        }
    }
}

/// Stability: for every updated-at value, the subsequence of items carrying
/// that value is the same, in the same order, before and after sorting.
pub proof fn lemma_stable_sorted_stable(s: Seq<Notification>, t: i64)
    ensures
        stable_sorted(s).filter(|n: Notification| n.updated_at == t) == s.filter(
            |n: Notification| n.updated_at == t,
        ),
    decreases s.len(),
{
    broadcast use vstd::prelude::Seq::lemma_filter_push;

    let pred = |n: Notification| n.updated_at == t;
    if s.len() == 0 {
    } else {
        let dl = s.drop_last();
        lemma_stable_sorted_stable(dl, t);
        lemma_insert_ordered_filter(stable_sorted(dl), s.last(), t);
        assert(s =~= dl.push(s.last()));
        assert(s.filter(pred) == if pred(s.last()) {
            dl.filter(pred).push(s.last())
        } else {
            dl.filter(pred)
        });
    }
}

/// Splicing `x` at the split point `j` between the elements at or below it
/// and those above it is what `insert_ordered` computes.
proof fn lemma_insert_ordered_at(s: Seq<Notification>, x: Notification, j: int)
    requires
        0 <= j <= s.len(),
        forall|k: int| 0 <= k < j ==> s[k].updated_at <= x.updated_at,
        forall|k: int| j <= k < s.len() ==> s[k].updated_at > x.updated_at,
    ensures
        insert_ordered(s, x) == s.take(j).push(x) + s.skip(j),
    decreases s.len(),
{
    if s.len() == 0 {
        assert(seq![x] =~= s.take(0).push(x) + s.skip(0));
    } else if j == s.len() {
        assert(s.last().updated_at <= x.updated_at);
        assert(s.push(x) =~= s.take(j).push(x) + s.skip(j));
    } else {
        assert(s.last().updated_at > x.updated_at);
        let dl = s.drop_last();
        assert(forall|k: int| 0 <= k < dl.len() ==> dl[k] == s[k]);
        lemma_insert_ordered_at(dl, x, j);
        assert(insert_ordered(dl, x).push(s.last()) =~= s.take(j).push(x) + s.skip(j));
    }
}

/// Stable-sorts a batch ascending by updated-at, ties keeping fetch order.
pub fn sort_by_updated(items: Vec<Notification>) -> (r: Vec<Notification>)
    ensures
        r@ == stable_sorted(items@),
{
    let ghost orig = items@;
    let mut rest = items;
    let mut out: Vec<Notification> = Vec::new();
    let ghost k: int = 0;
    proof {
        assert(out@ =~= stable_sorted(orig.take(0)));
        assert(rest@ =~= orig.skip(0));
    }
    while rest.len() > 0
        invariant
            0 <= k <= orig.len(),
            out@ == stable_sorted(orig.take(k)),
            rest@ == orig.skip(k),
        decreases rest@.len(),
    {
        let x = rest.remove(0);
        proof {
            assert(x == orig[k]);
            assert(orig.skip(k).remove(0) =~= orig.skip(k + 1));
            lemma_stable_sorted_props(orig.take(k));
        }
        let mut j: usize = out.len();
        while j > 0 && out[j - 1].updated_at > x.updated_at
            invariant
                j <= out@.len(),
                sorted_by_updated(out@),
                forall|m: int| j <= m < out@.len() ==> out@[m].updated_at > x.updated_at,
            decreases j,
        {
            j = j - 1;
        }
        proof {
            assert forall|m: int| 0 <= m < j implies out@[m].updated_at <= x.updated_at by {
                assert(out@[m].updated_at <= out@[j - 1].updated_at);
            }
            lemma_insert_ordered_at(out@, x, j as int);
        }
        let ghost pre = out@;
        out.insert(j, x);
        proof {
            assert(out@ =~= pre.take(j as int).push(x) + pre.skip(j as int));
            assert(orig.take(k + 1).drop_last() =~= orig.take(k));
            assert(orig.take(k + 1).last() == orig[k]);
            k = k + 1;
        }
    }
    proof {
        assert(orig.take(orig.len() as int) =~= orig);
    }
    out
}

} // verus!
