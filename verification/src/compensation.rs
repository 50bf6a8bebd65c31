use crate::assoc::{
    assoc, assoc_ok, lemma_assoc_at, lemma_assoc_len, lemma_assoc_position, lemma_assoc_push,
    lemma_assoc_remove, lemma_assoc_update,
};
use crate::listing::{Listing, ListingView};
use crate::payout::{share_views, RoyaltyShare, RoyaltyView};
use crate::saga::{
    lemma_step_preserves_well_formed, sale_views, Action, ActionView, CallId, CallKind,
        CallOutcome, Callback,
    Phase, SaleAttempt, SaleAttemptView,
};
use vstd::prelude::*;

verus! {

/// The log as plain values: the record of each sale that is under way or has
/// failed, by the sale's id, and the id that the next sale gets.
pub struct CompensationLogView {
    pub records: Map<u64, SaleAttemptView>,
    pub next_saga_id: u64,
}

/// Whether a record may rest in the log at that phase: the sale waits for the
/// answer to a call, or it has failed. A settled sale's record is released.
pub open spec fn at_rest(phase: Phase) -> bool {
    ||| phase == Phase::PaymentRequested
    ||| phase == Phase::AssetTransferRequested
    ||| phase == Phase::PaymentRefundRequested
    ||| phase == Phase::Failed
}

impl CompensationLogView {
    /// What holds of every log: there are finitely many records, each is
    /// well formed, at rest, and stored under its own id, which is below the
    /// id that the next sale gets.
    pub open spec fn well_formed(self) -> bool {
        &&& self.records.dom().finite()
        &&& forall|id: u64| #[trigger]
            self.records.dom().contains(id) ==> {
                &&& self.records[id].saga_id == id
                &&& self.records[id].well_formed()
                &&& at_rest(self.records[id].phase)
                &&& id < self.next_saga_id
            }
    }

    /// The log after a sale was accepted, and the payment that is asked for:
    /// the sale gets the next id and its record waits for the payment.
    pub open spec fn open_sale(
        self,
        listing: ListingView,
        buyer_id: Seq<char>,
        agreed_price_minor: nat,
        created_at: u64,
    ) -> (CompensationLogView, ActionView) {
        let started = SaleAttemptView::initiated(
            self.next_saga_id,
            listing,
            buyer_id,
            agreed_price_minor,
            created_at,
        ).request_payment();
        (
            CompensationLogView {
                records: self.records.insert(self.next_saga_id, started.0),
                next_saga_id: (self.next_saga_id + 1) as u64,
            },
            started.1,
        )
    }

    /// The log after an answer was delivered, and what is asked for next. An
    /// answer for a sale that has no record does nothing. Otherwise the
    /// sale's record takes the step; a record that comes to be settled is
    /// released, any other stays.
    pub open spec fn deliver(self, callback: Callback, royalty_spec: Seq<RoyaltyView>) -> (
        CompensationLogView,
        ActionView,
    ) {
        let id = callback.call.saga_id;
        if !self.records.dom().contains(id) {
            (self, ActionView::Nothing)
        } else {
            let next = self.records[id].step(callback, royalty_spec);
            if next.0.phase == Phase::Settled {
                (CompensationLogView { records: self.records.remove(id), ..self }, next.1)
            } else {
                (CompensationLogView { records: self.records.insert(id, next.0), ..self }, next.1)
            }
        }
    }

    /// The log after the sale with that id was found to have waited too long
    /// for an answer, and what is asked for next: the call that the sale
    /// waits for counts as failed. A sale that has no record, or waits for
    /// nothing, is left alone.
    pub open spec fn time_out(self, saga_id: u64) -> (CompensationLogView, ActionView) {
        if self.records.dom().contains(saga_id) && self.records[saga_id].outstanding_call() is Some {
            self.deliver(
                Callback {
                    call: self.records[saga_id].outstanding_call().unwrap(),
                    outcome: CallOutcome::TimedOut,
                },
                Seq::empty(),
            )
        } else {
            (self, ActionView::Nothing)
        }
    }

    /// Whether the sale with that id is under way and began before `older_than`.
    pub open spec fn is_pending(self, id: u64, older_than: u64) -> bool {
        self.records.dom().contains(id) && !self.records[id].phase.is_terminal()
            && self.records[id].created_at
            < older_than
    }
}

/// Delivering an answer keeps the log well formed.
pub proof fn lemma_deliver_preserves_well_formed(
    log: CompensationLogView,
    callback: Callback,
    royalty_spec: Seq<RoyaltyView>,
)
    requires
        log.well_formed(),
    ensures
        log.deliver(callback, royalty_spec).0.well_formed(),
{
    let id = callback.call.saga_id;
    if log.records.dom().contains(id) {
        lemma_step_preserves_well_formed(log.records[id], callback, royalty_spec);
    }
}

/// Accepting a sale keeps the log well formed, as long as ids are left and
/// the sale is between two parties at a price that covers the listing's.
pub proof fn lemma_open_sale_preserves_well_formed(
    log: CompensationLogView,
    listing: ListingView,
    buyer_id: Seq<char>,
    agreed_price_minor: nat,
    created_at: u64,
)
    requires
        log.well_formed(),
        log.next_saga_id < u64::MAX,
        buyer_id != listing.owner_id,
        listing.price_minor > 0,
        listing.price_minor <= agreed_price_minor,
    ensures
        log.open_sale(listing, buyer_id, agreed_price_minor, created_at).0.well_formed(),
{
}

/// The ids of a list of records.
pub open spec fn saga_ids(records: Seq<SaleAttemptView>) -> Seq<u64> {
    records.map_values(|a: SaleAttemptView| a.saga_id)
}

/// Whether a list of records can be the records of a log whose next sale
/// gets the id `next_saga_id`: each record is well formed and at rest, the
/// ids rise along the list, and all are below `next_saga_id`.
pub open spec fn records_in_order(records: Seq<SaleAttemptView>, next_saga_id: u64) -> bool {
    &&& forall|i: int|
        0 <= i < records.len() ==> {
            &&& (#[trigger] records[i]).well_formed()
            &&& at_rest(records[i].phase)
            &&& records[i].saga_id < next_saga_id
        }
    &&& forall|i: int, j: int|
        0 <= i < j < records.len() ==> (#[trigger] records[i]).saga_id < (#[trigger] records[j]).saga_id
}

spec fn record_ids(records: Seq<SaleAttempt>) -> Seq<u64> {
    records.map_values(|a: SaleAttempt| a.saga_id)
}

spec fn record_views(records: Seq<SaleAttempt>) -> Seq<SaleAttemptView> {
    records.map_values(|a: SaleAttempt| a@)
}

spec fn records_ok(records: Seq<SaleAttempt>, next_saga_id: u64) -> bool {
    &&& forall|i: int|
        0 <= i < records.len() ==> {
            &&& (#[trigger] records[i])@.well_formed()
            &&& at_rest(records[i].phase)
            &&& records[i].saga_id < next_saga_id
        }
    &&& forall|i: int, j: int|
        0 <= i < j < records.len() ==> (#[trigger] records[i]).saga_id < (#[trigger] records[j]).saga_id
}

spec fn waits(record: SaleAttempt, older_than: u64) -> bool {
    !record.phase.is_terminal() && record.created_at < older_than
}

spec fn listed(records: Seq<SaleAttempt>, upto: int, id: u64, older_than: u64) -> bool {
    exists|j: int| 0 <= j < upto && records[j].saga_id == id && waits(records[j], older_than)
}

proof fn lemma_records_assoc(records: Seq<SaleAttempt>, next_saga_id: u64)
    requires
        records_ok(records, next_saga_id),
    ensures
        assoc_ok(record_ids(records), record_views(records)),
        (CompensationLogView {
            records: assoc(record_ids(records), record_views(records)),
            next_saga_id,
        }).well_formed(),
{
    let ids = record_ids(records);
    let views = record_views(records);
    assert forall|i: int, j: int| 0 <= i < ids.len() && 0 <= j < ids.len() && i != j
        implies ids[i] != ids[j] by {
        if i < j {
            assert(records[i].saga_id < records[j].saga_id);
        } else {
            assert(records[j].saga_id < records[i].saga_id);
        }
    }
    lemma_assoc_len(ids, views);
    assert forall|id: u64| #[trigger] assoc(ids, views).dom().contains(id) implies {
        &&& assoc(ids, views)[id].saga_id == id
        &&& assoc(ids, views)[id].well_formed()
        &&& at_rest(assoc(ids, views)[id].phase)
        &&& id < next_saga_id
    } by {
        let i = lemma_assoc_position(ids, views, id);
        assert(records[i]@.well_formed());
    }
}

/// The records of the sales that are under way or have failed. A record is
/// added when a sale is accepted, changed with every step, released when the
/// sale is settled, and kept for good when the sale has failed.
pub struct CompensationLog {
    records: Vec<SaleAttempt>,
    next_saga_id: u64,
}

impl View for CompensationLog {
    type V = CompensationLogView;

    closed spec fn view(&self) -> CompensationLogView {
        CompensationLogView {
            records: assoc(record_ids(self.records@), record_views(self.records@)),
            next_saga_id: self.next_saga_id,
        }
    }
}

impl CompensationLog {
    #[verifier::type_invariant]
    spec fn inv(&self) -> bool {
        records_ok(self.records@, self.next_saga_id)
    }

    /// A log without records.
    pub fn new() -> (log: CompensationLog)
        ensures
            log@ == (CompensationLogView { records: Map::empty(), next_saga_id: 0 }),
            log@.well_formed(),
    {
        let log = CompensationLog { records: Vec::new(), next_saga_id: 0 };
        assert(log@.records =~= Map::empty());
        log
    }

    /// Rebuilds a log from stored records and the id that the next sale
    /// gets, if they can be those of a log.
    pub fn restore(records: Vec<SaleAttempt>, next_saga_id: u64) -> (restored: Option<CompensationLog>)
        ensures
            restored is Some <==> records_in_order(sale_views(records@), next_saga_id),
            restored matches Some(log) ==> log@.well_formed() && log@ == (CompensationLogView {
                records: assoc(saga_ids(sale_views(records@)), sale_views(records@)),
                next_saga_id,
            }),
    {
        let ghost views = sale_views(records@);
        let mut i: usize = 0;
        while i < records.len()
            invariant
                i <= records.len(),
                views == sale_views(records@),
                records_in_order(views.subrange(0, i as int), next_saga_id),
            decreases records.len() - i,
        {
            let resting: bool = match records[i].phase {
                Phase::PaymentRequested => true,
                Phase::AssetTransferRequested => true,
                Phase::PaymentRefundRequested => true,
                Phase::Failed => true,
                _ => false,
            };
            let rising: bool = i == 0 || records[i - 1].saga_id < records[i].saga_id;
            if !resting || !rising || records[i].saga_id >= next_saga_id
                || !records[i].is_well_formed() {
                proof {
                    if !rising {
                        assert(views[i - 1].saga_id >= views[i as int].saga_id);
                    } else {
                        assert(!(views[i as int].well_formed() && at_rest(views[i as int].phase)
                            && views[i as int].saga_id < next_saga_id));
                    }
                }
                return None;
            }
            proof {
                let prev = views.subrange(0, i as int);
                let next = views.subrange(0, i + 1);
                assert forall|a: int, b: int| 0 <= a < b < next.len()
                    implies (#[trigger] next[a]).saga_id < (
                #[trigger] next[b]).saga_id by {
                    if b < i {
                        assert(prev[a] == next[a] && prev[b] == next[b]);
                    } else if a < i - 1 {
                        assert(prev[a].saga_id < prev[i - 1].saga_id);
                        assert(prev[a] == next[a] && prev[i - 1] == views[i - 1]);
                    } else {
                        assert(next[a] == views[i - 1]);
                    }
                }
                assert forall|a: int| 0 <= a < next.len() implies {
                    &&& (#[trigger] next[a]).well_formed()
                    &&& at_rest(next[a].phase)
                    &&& next[a].saga_id < next_saga_id
                } by {
                    if a < i {
                        assert(prev[a] == next[a]);
                    }
                }
            }
            i += 1;
        }
        proof {
            assert(views.subrange(0, i as int) =~= views);
            assert forall|k: int| 0 <= k < records@.len() implies {
                &&& (#[trigger] records@[k])@.well_formed()
                &&& at_rest(records@[k].phase)
                &&& records@[k].saga_id < next_saga_id
            } by {
                assert(views[k].well_formed());
            }
            assert forall|a: int, b: int| 0 <= a < b < records@.len()
                implies (#[trigger] records@[a]).saga_id < (
            #[trigger] records@[b]).saga_id by {
                assert(views[a].saga_id < views[b].saga_id);
            }
            lemma_records_assoc(records@, next_saga_id);
            assert(record_ids(records@) =~= saga_ids(views));
            assert(record_views(records@) =~= views);
        }
        Some(CompensationLog { records, next_saga_id })
    }

    /// The id that the next sale gets.
    pub fn next_saga_id(&self) -> (id: u64)
        ensures
            id == self@.next_saga_id,
            self@.well_formed(),
    {
        proof {
            use_type_invariant(self);
            lemma_records_assoc(self.records@, self.next_saga_id);
        }
        self.next_saga_id
    }

    /// How many records the log holds.
    pub fn len(&self) -> (count: usize)
        ensures
            count == self@.records.dom().len(),
            self@.well_formed(),
    {
        proof {
            use_type_invariant(self);
            lemma_records_assoc(self.records@, self.next_saga_id);
            lemma_assoc_len(record_ids(self.records@), record_views(self.records@));
        }
        self.records.len()
    }

    fn position(&self, saga_id: u64) -> (slot: Option<usize>)
        ensures
            match slot {
                Some(i) => i < self.records.len() && self.records[i as int].saga_id == saga_id,
                None => !record_ids(self.records@).contains(saga_id),
            },
    {
        let mut i: usize = 0;
        while i < self.records.len()
            invariant
                i <= self.records.len(),
                forall|j: int| 0 <= j < i ==> record_ids(self.records@)[j] != saga_id,
            decreases self.records.len() - i,
        {
            if self.records[i].saga_id == saga_id {
                return Some(i);
            }
            i += 1;
        }
        None
    }

    /// The record of the sale with that id, if the log holds one.
    pub fn get(&self, saga_id: u64) -> (found: Option<SaleAttempt>)
        ensures
            self@.well_formed(),
            match found {
                Some(attempt) => self@.records.dom().contains(saga_id)
                    && attempt@ == self@.records[saga_id],
                None => !self@.records.dom().contains(saga_id),
            },
    {
        proof {
            use_type_invariant(self);
            lemma_records_assoc(self.records@, self.next_saga_id);
        }
        match self.position(saga_id) {
            Some(i) => {
                proof {
                    lemma_assoc_at(record_ids(self.records@), record_views(self.records@), i as int);
                }
                Some(self.records[i].duplicate())
            },
            None => None,
        }
    }

    /// Adds the record of a sale that was just accepted and says which
    /// payment to ask for.
    pub(crate) fn open_sale(
        &mut self,
        listing: Listing,
        buyer_id: String,
        agreed_price_minor: u128,
        created_at: u64,
    ) -> (action: Action)
        requires
            old(self)@.next_saga_id < u64::MAX,
            buyer_id@ != listing@.owner_id,
            listing.price_minor > 0,
            listing.price_minor <= agreed_price_minor,
        ensures
            (final(self)@, action@) == old(self)@.open_sale(
                listing@,
                buyer_id@,
                agreed_price_minor as nat,
                created_at,
            ),
            final(self)@.well_formed(),
    {
        proof {
            use_type_invariant(&*self);
            lemma_records_assoc(self.records@, self.next_saga_id);
        }
        let ghost before = self.records@;
        let ghost old_view = self@;
        let saga_id: u64 = self.next_saga_id;
        let (attempt, action) = SaleAttempt::initiated(
            saga_id,
            listing,
            buyer_id,
            agreed_price_minor,
            created_at,
        ).request_payment();
        let ghost added = attempt@;
        self.next_saga_id = saga_id + 1;
        let mut records: Vec<SaleAttempt> = Vec::new();
        core::mem::swap(&mut self.records, &mut records);
        records.push(attempt);
        proof {
            assert(record_ids(records@) =~= record_ids(before).push(saga_id));
            assert(record_views(records@) =~= record_views(before).push(added));
            assert(!record_ids(before).contains(saga_id)) by {
                if record_ids(before).contains(saga_id) {
                    let i = choose|i: int| 0 <= i < before.len() && record_ids(before)[i] == saga_id;
                    assert(before[i].saga_id < saga_id);
                }
            }
            lemma_assoc_push(record_ids(before), record_views(before), saga_id, added);
            assert forall|i: int, j: int| 0 <= i < j < records@.len()
                implies (#[trigger] records@[i]).saga_id < (
            #[trigger] records@[j]).saga_id by {
                if j < before.len() {
                    assert(records@[i] == before[i] && records@[j] == before[j]);
                } else {
                    assert(records@[i] == before[i]);
                }
            }
            assert forall|i: int| 0 <= i < records@.len() implies {
                &&& (#[trigger] records@[i])@.well_formed()
                &&& at_rest(records@[i].phase)
                &&& records@[i].saga_id < (saga_id + 1) as u64
            } by {
                if i < before.len() {
                    assert(records@[i] == before[i]);
                }
            }
            lemma_records_assoc(records@, (saga_id + 1) as u64);
        }
        core::mem::swap(&mut self.records, &mut records);
        action
    }

    /// Delivers the answer to a call and says what to do next. An answer for
    /// a sale that has no record, or to a call that the sale does not wait
    /// for, changes nothing and asks for nothing. A record that comes to be
    /// settled is released; every other record stays in the log.
    pub fn deliver(&mut self, callback: Callback, royalty_spec: &Vec<RoyaltyShare>) -> (action: Action)
        ensures
            (final(self)@, action@) == old(self)@.deliver(callback, share_views(royalty_spec@)),
            old(self)@.well_formed(),
            final(self)@.well_formed(),
    {
        proof {
            use_type_invariant(&*self);
            lemma_records_assoc(self.records@, self.next_saga_id);
        }
        let ghost before = self.records@;
        let ghost ids = record_ids(before);
        let ghost views = record_views(before);
        match self.position(callback.call.saga_id) {
            None => Action::Nothing,
            Some(i) => {
                proof {
                    lemma_assoc_at(ids, views, i as int);
                    lemma_step_preserves_well_formed(before[i as int]@, callback,
                        share_views(royalty_spec@));
                }
                let mut records: Vec<SaleAttempt> = Vec::new();
                core::mem::swap(&mut self.records, &mut records);
                let attempt = records.remove(i);
                let (next, action) = attempt.step(callback, royalty_spec);
                match next.phase {
                    Phase::Settled => {
                        proof {
                            assert(record_ids(records@) =~= ids.remove(i as int));
                            assert(record_views(records@) =~= views.remove(i as int));
                            lemma_assoc_remove(ids, views, i as int);
                            assert forall|a: int| 0 <= a < records@.len()
                                implies (#[trigger] records@[a])
                                == before[if a < i { a } else { a + 1 }] by {}
                            assert(records_ok(records@, self.next_saga_id)) by {
                                assert forall|a: int, b: int| 0 <= a < b < records@.len() implies (
                                #[trigger] records@[a]).saga_id < (#[trigger] records@[b]).saga_id by {
                                    let a1 = if a < i { a } else { a + 1 };
                                    let b1 = if b < i { b } else { b + 1 };
                                    assert(records@[a] == before[a1] && records@[b] == before[b1]);
                                }
                            }
                        }
                    },
                    _ => {
                        let ghost stepped = next@;
                        records.insert(i, next);
                        proof {
                            assert(records@ =~= before.update(i as int, records@[i as int]));
                            assert(record_ids(records@) =~= ids);
                            assert(record_views(records@) =~= views.update(i as int, stepped));
                            lemma_assoc_update(ids, views, i as int, stepped);
                            assert(records_ok(records@, self.next_saga_id)) by {
                                assert forall|a: int, b: int| 0 <= a < b < records@.len() implies (
                                #[trigger] records@[a]).saga_id < (#[trigger] records@[b]).saga_id by {
                                    assert(before[a].saga_id < before[b].saga_id);
                                }
                                assert forall|a: int| 0 <= a < records@.len() implies {
                                    &&& (#[trigger] records@[a])@.well_formed()
                                    &&& at_rest(records@[a].phase)
                                    &&& records@[a].saga_id < self.next_saga_id
                                } by {
                                    if a != i {
                                        assert(records@[a] == before[a]);
                                    }
                                }
                            }
                        }
                    },
                }
                proof {
                    lemma_records_assoc(records@, self.next_saga_id);
                }
                core::mem::swap(&mut self.records, &mut records);
                action
            },
        }
    }

    /// Counts the call that the sale `saga_id` waits for as failed, because no
    /// answer came in time, and says what to do next. A sale that waited for
    /// its payment has failed with no money moved; one that waited for the
    /// transfer of the asset asks for the refund; one that waited for the
    /// refund is on record as not refunded. A sale that has no record, or
    /// waits for nothing, is left alone.
    pub fn time_out(&mut self, saga_id: u64) -> (action: Action)
        ensures
            (final(self)@, action@) == old(self)@.time_out(saga_id),
            old(self)@.well_formed(),
            final(self)@.well_formed(),
    {
        proof {
            use_type_invariant(&*self);
            lemma_records_assoc(self.records@, self.next_saga_id);
        }
        match self.position(saga_id) {
            None => Action::Nothing,
            Some(i) => {
                proof {
                    lemma_assoc_at(record_ids(self.records@), record_views(self.records@), i as int);
                }
                let waits_for: Option<CallKind> = match self.records[i].phase {
                    Phase::PaymentRequested => Some(CallKind::Payment),
                    Phase::AssetTransferRequested => Some(CallKind::AssetTransfer),
                    Phase::PaymentRefundRequested => Some(CallKind::Refund),
                    _ => None,
                };
                match waits_for {
                    None => Action::Nothing,
                    Some(kind) => {
                        let no_royalties: Vec<RoyaltyShare> = Vec::new();
                        assert(share_views(no_royalties@) =~= Seq::empty());
                        self.deliver(
                            Callback { call: CallId { saga_id, kind }, outcome: CallOutcome::TimedOut },
                            &no_royalties,
                        )
                    },
                }
            },
        }
    }

    /// The ids of the sales that are under way and began before `older_than`,
    /// in rising order.
    pub fn list_pending(&self, older_than: u64) -> (pending: Vec<u64>)
        ensures
            forall|id: u64| pending@.contains(id) <==> self@.is_pending(id, older_than),
            forall|i: int, j: int| 0 <= i < j < pending.len() ==> pending[i] < pending[j],
    {
        proof {
            use_type_invariant(self);
            lemma_records_assoc(self.records@, self.next_saga_id);
        }
        let ghost ids = record_ids(self.records@);
        let ghost views = record_views(self.records@);
        let ghost records = self.records@;
        let mut pending: Vec<u64> = Vec::new();
        let mut i: usize = 0;
        while i < self.records.len()
            invariant
                i <= self.records.len(),
                records == self.records@,
                records_ok(records, self.next_saga_id),
                forall|k: int| 0 <= k < pending.len()
                    ==> #[trigger] listed(records, i as int, pending[k], older_than),
                forall|j: int|
                    0 <= j < i && #[trigger] waits(records[j], older_than)
                        ==> pending@.contains(records[j].saga_id),
                forall|a: int, b: int| 0 <= a < b < pending.len() ==> pending[a] < pending[b],
            decreases self.records.len() - i,
        {
            if !self.records[i].phase.terminal() && self.records[i].created_at < older_than {
                let ghost before = pending@;
                proof {
                    assert forall|k: int| 0 <= k < before.len()
                        implies before[k] < records[i as int].saga_id by {
                        assert(listed(records, i as int, before[k], older_than));
                        let j = choose|j: int| 0 <= j < i && records[j].saga_id == before[k]
                            && waits(records[j], older_than);
                        assert(records[j].saga_id < records[i as int].saga_id);
                    }
                }
                pending.push(self.records[i].saga_id);
                proof {
                    assert forall|j: int| 0 <= j < i + 1
                        && #[trigger] waits(records[j], older_than) implies pending@.contains(
                        records[j].saga_id,
                    ) by {
                        if j < i {
                            assert(before.contains(records[j].saga_id));
                            let k = choose|k: int| 0 <= k < before.len()
                                && before[k] == records[j].saga_id;
                            assert(pending@[k] == records[j].saga_id);
                        } else {
                            assert(pending@[before.len() as int] == records[j].saga_id);
                        }
                    }
                    assert forall|k: int| 0 <= k < pending.len() implies #[trigger] listed(
                        records,
                        i + 1,
                        pending[k],
                        older_than,
                    ) by {
                        if k < before.len() {
                            assert(listed(records, i as int, before[k], older_than));
                            let j = choose|j: int| 0 <= j < i && records[j].saga_id == before[k]
                                && waits(records[j], older_than);
                            assert(0 <= j < i + 1 && records[j].saga_id == pending[k]
                                && waits(records[j], older_than));
                        } else {
                            assert(records[i as int].saga_id == pending[k]
                                && waits(records[i as int], older_than));
                        }
                    }
                }
            } else {
                proof {
                    assert forall|k: int| 0 <= k < pending.len() implies #[trigger] listed(
                        records,
                        i + 1,
                        pending[k],
                        older_than,
                    ) by {
                        assert(listed(records, i as int, pending[k], older_than));
                        let j = choose|j: int| 0 <= j < i && records[j].saga_id == pending[k]
                            && waits(records[j], older_than);
                        assert(0 <= j < i + 1 && records[j].saga_id == pending[k]
                            && waits(records[j], older_than));
                    }
                }
            }
            i += 1;
        }
        proof {
            assert forall|id: u64| pending@.contains(id) <==> self@.is_pending(id, older_than) by {
                if pending@.contains(id) {
                    let k = choose|k: int| 0 <= k < pending.len() && pending[k] == id;
                    assert(listed(records, i as int, pending[k], older_than));
                    let j = choose|j: int| 0 <= j < i && records[j].saga_id == id
                        && waits(records[j], older_than);
                    lemma_assoc_at(ids, views, j);
                }
                if self@.is_pending(id, older_than) {
                    let j = lemma_assoc_position(ids, views, id);
                    assert(records[j].saga_id == id);
                    assert(waits(records[j], older_than));
                }
            }
        }
        pending
    }

    /// A copy of every record, in the order of the sales' ids.
    pub fn records(&self) -> (all: Vec<SaleAttempt>)
        ensures
            all.len() == self@.records.dom().len(),
            forall|i: int|
                0 <= i < all.len() ==> self@.records.dom().contains((#[trigger] all[i]).saga_id)
                    && self@.records[all[i].saga_id] == all[i]@,
            forall|i: int, j: int| 0 <= i < j < all.len() ==> all[i].saga_id < all[j].saga_id,
    {
        proof {
            use_type_invariant(self);
            lemma_records_assoc(self.records@, self.next_saga_id);
            lemma_assoc_len(record_ids(self.records@), record_views(self.records@));
        }
        let mut all: Vec<SaleAttempt> = Vec::new();
        let mut i: usize = 0;
        while i < self.records.len()
            invariant
                i <= self.records.len(),
                all.len() == i,
                forall|j: int| 0 <= j < i ==> (#[trigger] all[j])@ == self.records[j]@,
            decreases self.records.len() - i,
        {
            all.push(self.records[i].duplicate());
            i += 1;
        }
        proof {
            assert forall|k: int| 0 <= k < all.len() implies self@.records.dom().contains(
                (#[trigger] all[k]).saga_id,
            ) && self@.records[all[k].saga_id] == all[k]@ by {
                lemma_assoc_at(record_ids(self.records@), record_views(self.records@), k);
                assert(all[k]@.saga_id == self.records[k]@.saga_id);
            }
            assert forall|a: int, b: int| 0 <= a < b < all.len()
                implies all[a].saga_id < all[b].saga_id by {
                assert(all[a]@.saga_id == self.records[a]@.saga_id);
                assert(all[b]@.saga_id == self.records[b]@.saga_id);
                assert(self.records[a].saga_id < self.records[b].saga_id);
            }
        }
        all
    }
}

} // verus!
