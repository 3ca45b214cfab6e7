//! The dispatch cycle as a state machine for a driver that performs the
//! store and sink calls elsewhere (over a network, asynchronously): the
//! machine hands out the next action, the driver performs it and hands back
//! the event, and every decision in between is verified.

use vstd::prelude::*;

use crate::dispatch::spec_max_updated;
use crate::dispatch::stable_sorted;
use crate::dispatch::lemma_stable_sorted_props;
use crate::dispatch::max_updated_at;
use crate::dispatch::sort_by_updated;
use crate::errors::StoreError;
use crate::notification::format_message;
use crate::notification::spec_message;
use crate::notification::Notification;

verus! {

/// Where the machine stands within the current item.
#[derive(Debug, Clone, Copy, PartialEq, Eq, Structural)]
pub enum CyclePhase {
    /// The store has been asked whether the current item's identifier is
    /// recorded.
    AwaitingMembership,
    /// The sink has been asked to forward the current item.
    AwaitingSend,
    /// The store has been asked to record the current item's identifier.
    AwaitingMark,
    /// Every item was handled.
    Finished,
    /// A store failure ended the cycle early: a query failure because
    /// membership cannot be trusted, a write failure because an unrecorded
    /// forward risks a duplicate send.
    Aborted(StoreError),
}

/// What the driver must do next.
pub enum CycleAction {
    /// Ask the store whether `id` is recorded as sent.
    QueryMembership {
        /// The current item's identifier.
        id: String,
    },
    /// Forward `message` for the item `id`.
    Send {
        /// The current item's identifier.
        id: String,
        /// The rendered message block.
        message: String,
    },
    /// Record `id` as sent.
    RecordSent {
        /// The current item's identifier.
        id: String,
    },
    /// The cycle is over: report what it did and stop driving.
    Report {
        /// Items forwarded and recorded.
        forwarded: u32,
        /// Maximum updated-at over the whole fetched batch.
        max_updated: Option<i64>,
        /// The store failure that ended the cycle early, if any.
        error: Option<StoreError>,
    },
}

/// What the driver observed while performing the last action.
#[derive(Debug, Clone, Copy, PartialEq, Eq, Structural)]
pub enum CycleEvent {
    /// The store answered the membership query.
    Membership(bool),
    /// The membership query failed.
    MembershipFailed,
    /// The sink accepted the message.
    SendSucceeded,
    /// The sink refused or the transport failed.
    SendFailed,
    /// The store recorded the identifier.
    RecordSucceeded,
    /// The store could not record the identifier.
    RecordFailed,
}

/// Which events can answer which phase.
pub open spec fn event_fits(phase: CyclePhase, e: CycleEvent) -> bool {
    match phase {
        CyclePhase::AwaitingMembership => e is Membership || e is MembershipFailed,
        CyclePhase::AwaitingSend => e is SendSucceeded || e is SendFailed,
        CyclePhase::AwaitingMark => e is RecordSucceeded || e is RecordFailed,
        CyclePhase::Finished => false,
        CyclePhase::Aborted(_) => false,
    }
}

/// One dispatch cycle, driven from outside: the batch in delivery order, the
/// position reached, and what was forwarded so far.
pub struct CycleMachine {
    /// The batch, stable-sorted ascending by updated-at.
    pub items: Vec<Notification>,
    /// The item the machine currently stands on.
    pub idx: usize,
    /// Items forwarded and recorded so far.
    pub forwarded: u32,
    /// Where the machine stands within the current item.
    pub phase: CyclePhase,
    /// Maximum updated-at over the whole batch, fixed at construction.
    pub max_updated: Option<i64>,
}

impl CycleMachine {
    /// The machine's invariant: the position is within the batch, the count
    /// cannot exceed the items passed, and whenever an item is being worked
    /// on it is an unread one — a read item is never forwarded.
    pub open spec fn wf(&self) -> bool {
        &&& self.items@.len() <= u32::MAX
        &&& self.idx <= self.items@.len()
        &&& self.forwarded <= self.idx
        &&& ((self.phase is AwaitingMembership || self.phase is AwaitingSend || self.phase
            is AwaitingMark) ==> self.idx < self.items@.len()
            && self.items@[self.idx as int].unread)
        &&& (self.phase is Finished ==> self.idx == self.items@.len())
    }

    /// Moves to the next unread item at or after the current position, or
    /// finishes.
    fn advance(&mut self)
        requires
            old(self).items@.len() <= u32::MAX,
            old(self).idx <= old(self).items@.len(),
            old(self).forwarded <= old(self).idx,
        ensures
            final(self).items == old(self).items,
            final(self).forwarded == old(self).forwarded,
            final(self).max_updated == old(self).max_updated,
            old(self).idx <= final(self).idx,
            final(self).wf(),
            final(self).phase is AwaitingMembership || final(self).phase is Finished,
            forall|k: int|
                old(self).idx <= k < final(self).idx ==> !(#[trigger] final(self).items@[k]).unread,
    {
        while self.idx < self.items.len() && !self.items[self.idx].unread
            invariant
                old(self).idx <= self.idx <= self.items@.len(),
                self.items == old(self).items,
                self.forwarded == old(self).forwarded,
                self.max_updated == old(self).max_updated,
                self.phase == old(self).phase,
                forall|k: int|
                    old(self).idx <= k < self.idx ==> !(#[trigger] self.items@[k]).unread,
            decreases self.items@.len() - self.idx,
        {
            self.idx = self.idx + 1;
        }
        if self.idx < self.items.len() {
            self.phase = CyclePhase::AwaitingMembership;
        } else {
            self.phase = CyclePhase::Finished;
        }
    }

    /// Builds the machine for one batch: fixes the cursor seed over the
    /// whole batch, stable-sorts it, and stands on the first unread item.
    pub fn new(notifications: Vec<Notification>) -> (r: CycleMachine)
        requires
            notifications@.len() <= u32::MAX,
        ensures
            r.wf(),
            r.items@ == stable_sorted(notifications@),
            r.max_updated == spec_max_updated(notifications@),
            r.forwarded == 0,
            r.phase is AwaitingMembership || r.phase is Finished,
            forall|k: int| 0 <= k < r.idx ==> !(#[trigger] r.items@[k]).unread,
    {
        let max_updated = max_updated_at(&notifications);
        let ghost batch = notifications@;
        let items = sort_by_updated(notifications);
        proof {
            lemma_stable_sorted_props(batch);
        }
        let mut r = CycleMachine {
            items,
            idx: 0,
            forwarded: 0,
            phase: CyclePhase::Finished,
            max_updated,
        };
        r.advance();
        r
    }

    /// The next thing the driver must do. A `Send` only ever names an unread
    /// item, with the exact message the renderer gives it.
    pub fn next_action(&self) -> (r: CycleAction)
        requires
            self.wf(),
        ensures
            self.phase is AwaitingMembership ==> (r matches CycleAction::QueryMembership { id }
                && id@ == self.items@[self.idx as int].id@),
            self.phase is AwaitingSend ==> (r matches CycleAction::Send { id, message } && id@
                == self.items@[self.idx as int].id@ && message@ == spec_message(
                &self.items@[self.idx as int],
            ) && self.items@[self.idx as int].unread),
            self.phase is AwaitingMark ==> (r matches CycleAction::RecordSent { id } && id@
                == self.items@[self.idx as int].id@),
            self.phase is Finished || self.phase is Aborted ==> (r
                matches CycleAction::Report { forwarded, max_updated, error } && forwarded
                == self.forwarded && max_updated == self.max_updated && error == (match self
                .phase {
                CyclePhase::Aborted(err) => Some(err),
                _ => None,
            })),
    {
        match self.phase {
            CyclePhase::AwaitingMembership => CycleAction::QueryMembership {
                id: self.items[self.idx].id.clone(),
            },
            CyclePhase::AwaitingSend => CycleAction::Send {
                id: self.items[self.idx].id.clone(),
                message: format_message(&self.items[self.idx]),
            },
            CyclePhase::AwaitingMark => CycleAction::RecordSent {
                id: self.items[self.idx].id.clone(),
            },
            CyclePhase::Finished => CycleAction::Report {
                forwarded: self.forwarded,
                max_updated: self.max_updated,
                error: None,
            },
            CyclePhase::Aborted(err) => CycleAction::Report {
                forwarded: self.forwarded,
                max_updated: self.max_updated,
                error: Some(err),
            },
        }
    }

    /// Feeds back what the driver observed. An identifier the store already
    /// holds is skipped; a failed send skips only that item and never aborts
    /// the cycle; a successful send is recorded before it is counted; a
    /// store failure aborts the rest of the cycle.
    pub fn step(&mut self, e: CycleEvent)
        requires
            old(self).wf(),
            event_fits(old(self).phase, e),
        ensures
            final(self).wf(),
            final(self).items == old(self).items,
            final(self).max_updated == old(self).max_updated,
            old(self).idx <= final(self).idx,
            forall|k: int|
                old(self).idx < k < final(self).idx ==> !(#[trigger] final(self).items@[k]).unread,
            e matches CycleEvent::Membership(b) ==> (if b {
                final(self).forwarded == old(self).forwarded && final(self).idx > old(self).idx
                    && (final(self).phase is AwaitingMembership || final(self).phase is Finished)
            } else {
                final(self).phase is AwaitingSend && final(self).idx == old(self).idx && final(self).forwarded == old(self).forwarded
            }),
            e is MembershipFailed ==> final(self).phase == CyclePhase::Aborted(
                StoreError::StoreQueryError,
            ) && final(self).forwarded == old(self).forwarded && final(self).idx == old(self).idx,
            e is SendSucceeded ==> final(self).phase is AwaitingMark && final(self).idx == old(self).idx && final(self).forwarded == old(self).forwarded,
            e is SendFailed ==> final(self).forwarded == old(self).forwarded && final(self).idx
                > old(self).idx && (final(self).phase is AwaitingMembership || final(self).phase
                is Finished),
            e is RecordSucceeded ==> final(self).forwarded == old(self).forwarded + 1 && final(self).idx > old(self).idx && (final(self).phase is AwaitingMembership || final(self).phase
                is Finished),
            e is RecordFailed ==> final(self).phase == CyclePhase::Aborted(
                StoreError::StoreWriteError,
            ) && final(self).forwarded == old(self).forwarded && final(self).idx == old(self).idx,
    {
        match e {
            CycleEvent::Membership(already) => {
                if already {
                    self.idx = self.idx + 1;
                    self.advance();
                } else {
                    self.phase = CyclePhase::AwaitingSend;
                }
            },
            CycleEvent::MembershipFailed => {
                self.phase = CyclePhase::Aborted(StoreError::StoreQueryError);
            },
            CycleEvent::SendSucceeded => {
                self.phase = CyclePhase::AwaitingMark;
            },
            CycleEvent::SendFailed => {
                self.idx = self.idx + 1;
                self.advance();
            },
            CycleEvent::RecordSucceeded => {
                self.forwarded = self.forwarded + 1;
                self.idx = self.idx + 1;
                self.advance();
            },
            CycleEvent::RecordFailed => {
                self.phase = CyclePhase::Aborted(StoreError::StoreWriteError);
            },
        }
    }
}

} // verus!
