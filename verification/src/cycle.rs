//! One dispatch cycle over a sorted batch: filter by unread and by recorded
//! membership, forward, and record each success, tolerating per-item send
//! failures.
//!
//! The cycle is specified by a functional model, `spec_cycle`, that walks the
//! sorted batch threading the membership set and the sequence of sink
//! answers. `process_cycle` is proved to compute exactly that model.

use vstd::prelude::*;

use crate::dispatch::spec_max_updated;
use crate::dispatch::stable_sorted;
use crate::dispatch::lemma_stable_sorted_props;
use crate::dispatch::max_updated_at;
use crate::dispatch::sort_by_updated;
use crate::errors::StoreError;
use crate::notification::Notification;
use crate::store::NotificationStore;

verus! {

/// What one cycle does to the store: the final membership set and the
/// identifiers delivered, in delivery order.
pub ghost struct CycleModel {
    /// The membership set after the cycle.
    pub sent: Set<Seq<char>>,
    /// The identifiers whose forward succeeded, oldest first.
    pub delivered: Seq<Seq<char>>,
}

/// The functional model of one dispatch cycle. `items` is the batch in
/// delivery order; `sent` the membership set at the start; `outcomes` the
/// sink's answer to each forward attempt in order, a missing answer counting
/// as a failed attempt. An item is skipped when it is not unread or its
/// identifier is already a member; otherwise one outcome is consumed, and on
/// success the identifier joins the membership set.
pub open spec fn spec_cycle(
    items: Seq<Notification>,
    sent: Set<Seq<char>>,
    outcomes: Seq<bool>,
) -> CycleModel
    decreases items.len(),
{
    if items.len() == 0 {
        CycleModel { sent, delivered: Seq::empty() }
    } else if !items[0].unread || sent.contains(items[0].id@) {
        spec_cycle(items.skip(1), sent, outcomes)
    } else if outcomes.len() == 0 {
        spec_cycle(items.skip(1), sent, outcomes)
    } else if !outcomes[0] {
        spec_cycle(items.skip(1), sent, outcomes.skip(1))
    } else {
        let m = spec_cycle(items.skip(1), sent.insert(items[0].id@), outcomes.skip(1));
        CycleModel { sent: m.sent, delivered: seq![items[0].id@] + m.delivered }
    }
}

/// A notification whose identifier is already a member at the start of the
/// cycle is never forwarded, even if still unread.
pub proof fn lemma_cycle_dedup_respected(
    items: Seq<Notification>,
    sent: Set<Seq<char>>,
    outcomes: Seq<bool>,
)
    ensures
        forall|j: int|
            0 <= j < spec_cycle(items, sent, outcomes).delivered.len() ==> !sent.contains(
                #[trigger] spec_cycle(items, sent, outcomes).delivered[j],
            ),
    decreases items.len(),
{
    let m = spec_cycle(items, sent, outcomes);
    if items.len() == 0 {
    } else if !items[0].unread || sent.contains(items[0].id@) {
        lemma_cycle_dedup_respected(items.skip(1), sent, outcomes);
        assert(m == spec_cycle(items.skip(1), sent, outcomes));
    } else if outcomes.len() == 0 {
        lemma_cycle_dedup_respected(items.skip(1), sent, outcomes);
        assert(m == spec_cycle(items.skip(1), sent, outcomes));
    } else if !outcomes[0] {
        lemma_cycle_dedup_respected(items.skip(1), sent, outcomes.skip(1));
        assert(m == spec_cycle(items.skip(1), sent, outcomes.skip(1)));
    } else {
        let id = items[0].id@;
        let rest = spec_cycle(items.skip(1), sent.insert(id), outcomes.skip(1));
        lemma_cycle_dedup_respected(items.skip(1), sent.insert(id), outcomes.skip(1));
        assert forall|j: int| 0 <= j < m.delivered.len() implies !sent.contains(
            m.delivered[j],
        ) by {
            if j > 0 {
                assert(m.delivered[j] == rest.delivered[j - 1]);
                assert(!sent.insert(id).contains(rest.delivered[j - 1]));
            }
        }
    }
}

/// Some unread item of the batch carries this identifier.
pub open spec fn unread_has_id(items: Seq<Notification>, id: Seq<char>) -> bool {
    exists|i: int| 0 <= i < items.len() && (#[trigger] items[i]).unread && items[i].id@ == id
}

/// A notification that is not unread is never forwarded, whatever the dedup
/// state: every delivered identifier belongs to some unread item of the
/// batch.
pub proof fn lemma_cycle_only_unread(
    items: Seq<Notification>,
    sent: Set<Seq<char>>,
    outcomes: Seq<bool>,
)
    ensures
        forall|j: int|
            0 <= j < spec_cycle(items, sent, outcomes).delivered.len() ==> unread_has_id(
                items,
                #[trigger] spec_cycle(items, sent, outcomes).delivered[j],
            ),
    decreases items.len(),
{
    let m = spec_cycle(items, sent, outcomes);
    if items.len() == 0 {
    } else {
        let tail = items.skip(1);
        assert(forall|i: int| 0 <= i < tail.len() ==> tail[i] == items[i + 1]);
        if !items[0].unread || sent.contains(items[0].id@) || outcomes.len() == 0 || !outcomes[0] {
            let tail_oc = if !items[0].unread || sent.contains(items[0].id@) || outcomes.len()
                == 0 {
                outcomes
            } else {
                outcomes.skip(1)
            };
            lemma_cycle_only_unread(tail, sent, tail_oc);
            assert(m == spec_cycle(tail, sent, tail_oc));
            assert forall|j: int| 0 <= j < m.delivered.len() implies unread_has_id(
                items,
                m.delivered[j],
            ) by {
                assert(spec_cycle(tail, sent, tail_oc).delivered[j] == m.delivered[j]);
                assert(unread_has_id(tail, m.delivered[j]));
                let w = choose|w: int|
                    0 <= w < tail.len() && (#[trigger] tail[w]).unread && tail[w].id@
                        == m.delivered[j];
                assert(items[w + 1].unread && items[w + 1].id@ == m.delivered[j]);
            }
        } else {
            let id = items[0].id@;
            let rest = spec_cycle(tail, sent.insert(id), outcomes.skip(1));
            lemma_cycle_only_unread(tail, sent.insert(id), outcomes.skip(1));
            assert forall|j: int| 0 <= j < m.delivered.len() implies unread_has_id(
                items,
                m.delivered[j],
            ) by {
                if j == 0 {
                    assert(items[0].unread && items[0].id@ == m.delivered[0]);
                } else {
                    assert(m.delivered[j] == rest.delivered[j - 1]);
                    assert(unread_has_id(tail, rest.delivered[j - 1]));
                    let w = choose|w: int|
                        0 <= w < tail.len() && (#[trigger] tail[w]).unread && tail[w].id@
                            == rest.delivered[j - 1];
                    assert(items[w + 1].unread && items[w + 1].id@ == m.delivered[j]);
                }
            }
        }
    }
}

/// The membership set after a cycle is the starting set plus exactly the
/// delivered identifiers: every successful forward is marked, and nothing
/// else is.
pub proof fn lemma_cycle_sent_accounting(
    items: Seq<Notification>,
    sent: Set<Seq<char>>,
    outcomes: Seq<bool>,
)
    ensures
        spec_cycle(items, sent, outcomes).sent == sent.union(
            spec_cycle(items, sent, outcomes).delivered.to_set(),
        ),
    decreases items.len(),
{
    let m = spec_cycle(items, sent, outcomes);
    if items.len() == 0 {
        assert(m.delivered.to_set() =~= Set::<Seq<char>>::empty());
        assert(m.sent =~= sent.union(m.delivered.to_set()));
    } else if !items[0].unread || sent.contains(items[0].id@) {
        lemma_cycle_sent_accounting(items.skip(1), sent, outcomes);
    } else if outcomes.len() == 0 {
        lemma_cycle_sent_accounting(items.skip(1), sent, outcomes);
    } else if !outcomes[0] {
        lemma_cycle_sent_accounting(items.skip(1), sent, outcomes.skip(1));
    } else {
        let id = items[0].id@;
        let rest = spec_cycle(items.skip(1), sent.insert(id), outcomes.skip(1));
        lemma_cycle_sent_accounting(items.skip(1), sent.insert(id), outcomes.skip(1));
        assert(m.delivered.to_set() =~= rest.delivered.to_set().insert(id)) by {
            assert(m.delivered[0] == id);
            assert forall|e: Seq<char>| #[trigger]
                m.delivered.contains(e) implies e == id || rest.delivered.contains(e) by {
                let i = choose|i: int| 0 <= i < m.delivered.len() && m.delivered[i] == e;
                if i > 0 {
                    assert(rest.delivered[i - 1] == e);
                }
            }
            assert forall|e: Seq<char>| #[trigger]
                rest.delivered.contains(e) implies m.delivered.contains(e) by {
                let i = choose|i: int| 0 <= i < rest.delivered.len() && rest.delivered[i] == e;
                assert(m.delivered[i + 1] == e);
            }
        }
        assert(m.sent =~= sent.union(m.delivered.to_set()));
    }
}

/// A failed forward leaves the rest of the batch exactly as if the item had
/// been skipped: later successes are still delivered and marked, and the
/// cycle goes on.
pub proof fn lemma_send_failure_does_not_block(
    items: Seq<Notification>,
    sent: Set<Seq<char>>,
    outcomes: Seq<bool>,
)
    requires
        items.len() > 0,
        items[0].unread,
        !sent.contains(items[0].id@),
        outcomes.len() > 0,
        !outcomes[0],
    ensures
        spec_cycle(items, sent, outcomes) == spec_cycle(items.skip(1), sent, outcomes.skip(1)),
{
}

/// What one run of the dispatcher reports: how many items were forwarded,
/// and the maximum updated-at over the whole fetched batch.
#[derive(Debug, Clone, Copy, PartialEq, Eq, Structural)]
pub struct CycleOutcome {
    /// Items forwarded and recorded this cycle.
    pub forwarded: u32,
    /// Maximum updated-at over all fetched items, `None` for an empty batch.
    pub max_updated: Option<i64>,
}

/// Runs one dispatch cycle against a store: computes the cursor seed over the
/// whole batch, stable-sorts ascending by updated-at, then walks the batch
/// oldest first, skipping items not unread or already members, consuming one
/// sink answer per attempt, and recording each success.
///
/// A failed send skips only that item. A store failure ends the cycle with
/// that error: a query failure because membership cannot be trusted, a write
/// failure because an unrecorded forward risks a duplicate send. Either way
/// the store has only grown. Only a store call can fail, and the store is
/// consulted only for unread items, so a batch with no unread item always
/// succeeds (and still reports the cursor seed).
#[verifier::loop_isolation(false)]
pub fn process_cycle<S: NotificationStore>(
    store: &mut S,
    notifications: Vec<Notification>,
    send_ok: &Vec<bool>,
) -> (r: Result<CycleOutcome, StoreError>)
    requires
        notifications@.len() <= u32::MAX,
    ensures
        ({
            let m = spec_cycle(stable_sorted(notifications@), old(store).sent_ids(), send_ok@);
            &&& (r matches Ok(out) ==> {
                &&& final(store).sent_ids() == m.sent
                &&& out.forwarded == m.delivered.len()
                &&& out.max_updated == spec_max_updated(notifications@)
            })
            &&& (r matches Err(e) ==> (e == StoreError::StoreQueryError || e
                == StoreError::StoreWriteError) && old(store).sent_ids().subset_of(
                final(store).sent_ids(),
            ) && final(store).sent_ids().subset_of(m.sent))
            &&& ((forall|i: int|
                0 <= i < notifications@.len() ==> !(#[trigger] notifications@[i]).unread) ==> r
                is Ok)
        }),
{
    let ghost sent0 = old(store).sent_ids();
    let max_updated = max_updated_at(&notifications);
    let ghost batch = notifications@;
    let items = sort_by_updated(notifications);
    proof {
        lemma_stable_sorted_props(batch);
    }
    let ghost m_full = spec_cycle(items@, sent0, send_ok@);
    let mut i: usize = 0;
    let mut k: usize = 0;
    let mut forwarded: u32 = 0;
    let ghost mut delivered: Seq<Seq<char>> = Seq::empty();
    proof {
        assert(items@.skip(0) =~= items@);
        assert(send_ok@.skip(0) =~= send_ok@);
    }
    while i < items.len()
        invariant
            items@ == stable_sorted(batch),
            items@.len() <= u32::MAX,
            i <= items@.len(),
            k <= send_ok@.len(),
            forwarded == delivered.len(),
            delivered.len() <= i,
            sent0.subset_of(store.sent_ids()),
            m_full == spec_cycle(items@, sent0, send_ok@),
            m_full.sent == spec_cycle(items@.skip(i as int), store.sent_ids(), send_ok@.skip(k as int)).sent,
            m_full.delivered == delivered + spec_cycle(
                items@.skip(i as int),
                store.sent_ids(),
                send_ok@.skip(k as int),
            ).delivered,
        decreases items@.len() - i,
    {
        let ghost rem = items@.skip(i as int);
        let ghost oc = send_ok@.skip(k as int);
        proof {
            assert(rem[0] == items@[i as int]);
            assert(rem.skip(1) =~= items@.skip(i + 1));
        }
        if !items[i].unread {
            proof {
                assert(spec_cycle(rem, store.sent_ids(), oc) == spec_cycle(
                    rem.skip(1),
                    store.sent_ids(),
                    oc,
                ));
            }
            i = i + 1;
            continue ;
        }
        let already = match store.is_sent(items[i].id.as_str()) {
            Ok(b) => b,
            Err(e) => {
                proof {
                    lemma_cycle_sent_accounting(rem, store.sent_ids(), oc);
                    // the store was consulted, so the batch has an unread item
                    let n = items@[i as int];
                    assert(items@.contains(n));
                    items@.to_multiset_ensures();
                    batch.to_multiset_ensures();
                    assert(items@.to_multiset().count(n) > 0);
                    assert(items@.to_multiset() == batch.to_multiset());
                    assert(batch.contains(n));
                    let w = choose|w: int| 0 <= w < batch.len() && batch[w] == n;
                    assert(batch[w].unread);
                }
                return Err(e);
            },
        };
        if already {
            proof {
                assert(spec_cycle(rem, store.sent_ids(), oc) == spec_cycle(
                    rem.skip(1),
                    store.sent_ids(),
                    oc,
                ));
            }
            i = i + 1;
            continue ;
        }
        if k < send_ok.len() {
            let o = send_ok[k];
            proof {
                assert(oc[0] == send_ok@[k as int]);
                assert(oc.skip(1) =~= send_ok@.skip(k + 1));
            }
            k = k + 1;
            if o {
                match store.mark_sent(items[i].id.as_str()) {
                    Ok(()) => {},
                    Err(e) => {
                        proof {
                            assert(spec_cycle(rem, store.sent_ids(), oc).sent == m_full.sent);
                            lemma_cycle_sent_accounting(rem, store.sent_ids(), oc);
                            // the store was consulted, so the batch has an unread item
                            let n = items@[i as int];
                            assert(items@.contains(n));
                            items@.to_multiset_ensures();
                            batch.to_multiset_ensures();
                            assert(items@.to_multiset().count(n) > 0);
                            assert(items@.to_multiset() == batch.to_multiset());
                            assert(batch.contains(n));
                            let w = choose|w: int| 0 <= w < batch.len() && batch[w] == n;
                            assert(batch[w].unread);
                        }
                        return Err(e);
                    },
                }
                proof {
                    let rest = spec_cycle(rem.skip(1), store.sent_ids(), send_ok@.skip(k as int));
                    assert(delivered + (seq![items@[i as int].id@] + rest.delivered)
                        =~= delivered.push(items@[i as int].id@) + rest.delivered);
                    delivered = delivered.push(items@[i as int].id@);
                }
                forwarded = forwarded + 1;
            } else {
                proof {
                    assert(spec_cycle(rem, store.sent_ids(), oc) == spec_cycle(
                        rem.skip(1),
                        store.sent_ids(),
                        oc.skip(1),
                    ));
                }
            }
        } else {
            proof {
                assert(oc.len() == 0);
                assert(spec_cycle(rem, store.sent_ids(), oc) == spec_cycle(
                    rem.skip(1),
                    store.sent_ids(),
                    oc,
                ));
            }
        }
        i = i + 1;
    }
    proof {
        assert(items@.skip(items@.len() as int) =~= Seq::<Notification>::empty());
        assert(m_full.delivered == delivered + Seq::<Seq<char>>::empty());
        assert(delivered + Seq::<Seq<char>>::empty() =~= delivered);
    }
    Ok(CycleOutcome { forwarded, max_updated })
}

} // verus!
