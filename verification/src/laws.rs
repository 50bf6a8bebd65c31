use crate::compensation::CompensationLogView;
use crate::market::{answer, MarketView, OfferError, OfferView};
use crate::payout::{conserves, lemma_payout_conserves, RoyaltyView};
use crate::saga::{
    call_of, lemma_step_preserves_well_formed, ActionView, CallKind, CallOutcome, Callback,
        FailureKind, Phase,
    SaleAttemptView,
};
use vstd::prelude::*;

verus! {

/// An answer as it is delivered to a sale: the callback, and the royalty
/// specification at hand at that time.
pub struct Delivery {
    pub callback: Callback,
    pub royalty_spec: Seq<RoyaltyView>,
}

/// The record of a sale after a number of answers were delivered to it, one
/// after the other.
pub open spec fn run(attempt: SaleAttemptView, deliveries: Seq<Delivery>) -> SaleAttemptView
    decreases deliveries.len(),
{
    if deliveries.len() == 0 {
        attempt
    } else {
        run(attempt, deliveries.drop_last()).step(
            deliveries.last().callback,
            deliveries.last().royalty_spec,
        ).0
    }
}

/// What is asked for when the answer at position `i` is delivered.
pub open spec fn action_at(attempt: SaleAttemptView, deliveries: Seq<Delivery>, i: int) -> ActionView {
    run(attempt, deliveries.subrange(0, i)).step(deliveries[i].callback, deliveries[i].royalty_spec).1
}

/// Whether the sale moves on when the answer at position `i` is delivered.
pub open spec fn moves_at(attempt: SaleAttemptView, deliveries: Seq<Delivery>, i: int) -> bool {
    run(attempt, deliveries.subrange(0, i + 1)).phase != run(attempt, deliveries.subrange(0, i)).phase
}

proof fn lemma_run_unfold(attempt: SaleAttemptView, deliveries: Seq<Delivery>, i: int)
    requires
        0 <= i < deliveries.len(),
    ensures
        run(attempt, deliveries.subrange(0, i + 1)) == run(attempt, deliveries.subrange(0, i)).step(
            deliveries[i].callback,
            deliveries[i].royalty_spec,
        ).0,
{
    assert(deliveries.subrange(0, i + 1).drop_last() =~= deliveries.subrange(0, i));
    assert(deliveries.subrange(0, i + 1).last() == deliveries[i]);
}

/// A step never moves a sale back, and leaves its id alone.
pub proof fn lemma_step_moves_forward(
    attempt: SaleAttemptView,
    callback: Callback,
    royalty_spec: Seq<RoyaltyView>,
)
    ensures
        attempt.step(callback, royalty_spec).0.saga_id == attempt.saga_id,
        attempt.step(callback, royalty_spec).0.phase.rank() >= attempt.phase.rank(),
        attempt.step(callback, royalty_spec).0.phase != attempt.phase ==> attempt.step(
            callback,
            royalty_spec,
        ).0.phase.rank() > attempt.phase.rank(),
        attempt.step(callback, royalty_spec).0.phase == attempt.phase
            ==> attempt.step(callback, royalty_spec)
            == (attempt, ActionView::Nothing),
{
}

/// However many answers are delivered, a sale never moves back, keeps its
/// id, and, if its record was well formed, keeps a well-formed record of the
/// same trade.
pub proof fn lemma_run_moves_forward(attempt: SaleAttemptView, deliveries: Seq<Delivery>, i: int, j: int)
    requires
        0 <= i <= j <= deliveries.len(),
    ensures
        run(attempt, deliveries.subrange(0, j)).saga_id == attempt.saga_id,
        run(attempt, deliveries.subrange(0, i)).phase.rank() <= run(
            attempt,
            deliveries.subrange(0, j),
        ).phase.rank(),
        attempt.well_formed() ==> {
            &&& run(attempt, deliveries.subrange(0, j)).well_formed()
            &&& run(attempt, deliveries.subrange(0, j)).listing == attempt.listing
            &&& run(attempt, deliveries.subrange(0, j)).buyer_id == attempt.buyer_id
            &&& run(attempt, deliveries.subrange(0, j)).agreed_price_minor == attempt.agreed_price_minor
        },
    decreases j,
{
    if j == 0 {
        assert(deliveries.subrange(0, 0).len() == 0);
    } else {
        lemma_run_unfold(attempt, deliveries, j - 1);
        let before = run(attempt, deliveries.subrange(0, j - 1));
        lemma_step_moves_forward(before, deliveries[j - 1].callback, deliveries[j - 1].royalty_spec);
        if i < j {
            lemma_run_moves_forward(attempt, deliveries, i, j - 1);
        } else {
            lemma_run_moves_forward(attempt, deliveries, j - 1, j - 1);
        }
        if attempt.well_formed() {
            lemma_step_preserves_well_formed(before, deliveries[j - 1].callback,
                deliveries[j - 1].royalty_spec);
        }
    }
}

/// No double sale. When an offer for a listing is accepted, the listing is
/// gone from the market that results, and any offer for the same listing that
/// is taken after it is turned down: with `ListingNotFound`, unless it bids
/// nothing. So of two offers for one listing, taken in either order, at most
/// one is accepted.
pub proof fn lemma_listing_sold_at_most_once(
    market: MarketView,
    first: OfferView,
    first_at: u64,
    second: OfferView,
    second_at: u64,
)
    requires
        first.key() == second.key(),
        market.offer(first, first_at) is Ok,
    ensures
        !market.offer(first, first_at).unwrap().0.listings.dom().contains(first.key()),
        market.offer(first, first_at).unwrap().0.offer(second, second_at) is Err,
        second.bid_amount_minor > 0
            ==> market.offer(first, first_at).unwrap().0.offer(second, second_at) == Err::<
            (MarketView, ActionView),
            OfferError,
        >(OfferError::ListingNotFound),
{
}

/// An accepted offer leaves every other listing as it was, records exactly
/// one sale, under an id that no sale had before, and asks for the payment of
/// the bid by the buyer and for nothing else. The record waits for that
/// payment.
pub proof fn lemma_accepted_offer(market: MarketView, bid: OfferView, now: u64)
    requires
        market.well_formed(),
        market.offer(bid, now) is Ok,
    ensures
        market.offer(bid, now).unwrap().0.well_formed(),
        market.offer(bid, now).unwrap().0.listings == market.listings.remove(bid.key()),
        !market.log.records.dom().contains(market.log.next_saga_id),
        market.offer(bid, now).unwrap().0.log.records.dom() == market.log.records.dom().insert(
            market.log.next_saga_id,
        ),
        market.offer(bid, now).unwrap().0.log.records[market.log.next_saga_id] == (SaleAttemptView {
            saga_id: market.log.next_saga_id,
            listing: market.listings[bid.key()],
            buyer_id: bid.buyer_id,
            agreed_price_minor: bid.bid_amount_minor,
            phase: Phase::PaymentRequested,
            payout: None,
            created_at: now,
            failure: None,
        }),
        market.offer(bid, now).unwrap().1 == (ActionView::RequestPayment {
            call: call_of(market.log.next_saga_id, CallKind::Payment),
            payer_id: bid.buyer_id,
            amount_minor: bid.bid_amount_minor,
        }),
        forall|id: u64| #[trigger]
            market.log.records.dom().contains(id) ==> market.offer(bid, now).unwrap().0.log.records[id]
                == market.log.records[id],
{
    let id = market.log.next_saga_id;
    if market.log.records.dom().contains(id) {
        assert(id < market.log.next_saga_id);
    }
    crate::compensation::lemma_open_sale_preserves_well_formed(
        market.log,
        market.listings[bid.key()],
        bid.buyer_id,
        bid.bid_amount_minor,
        now,
    );
    assert(market.offer(bid, now).unwrap().0.log.records.dom() =~= market.log.records.dom().insert(id));
    assert(market.listings.remove(bid.key()).dom().finite());
}

/// Payment before transfer, step by step. The transfer of the asset is asked
/// for only by the step that delivers the successful answer to the sale's
/// own payment, to a sale that waits for that payment: the step records the
/// payment as confirmed, and only then asks for the transfer.
pub proof fn lemma_transfer_only_after_payment(
    attempt: SaleAttemptView,
    callback: Callback,
    royalty_spec: Seq<RoyaltyView>,
)
    requires
        attempt.step(callback, royalty_spec).1 is RequestAssetTransfer,
    ensures
        attempt.phase == Phase::PaymentRequested,
        callback == answer(attempt.saga_id, CallKind::Payment, CallOutcome::Succeeded),
        attempt.confirm_payment(callback.outcome).phase == Phase::PaymentConfirmed,
        attempt.step(callback, royalty_spec).0.phase == Phase::AssetTransferRequested,
{
}

/// Payment before transfer, over the whole life of a sale. Whatever answers
/// are delivered to a sale in whatever order, the transfer of the asset is
/// asked for at most once, and the answer at which it is asked for is the
/// successful answer to the sale's own payment.
pub proof fn lemma_transfer_requested_once(attempt: SaleAttemptView, deliveries: Seq<Delivery>,
    i: int, j: int)
    requires
        0 <= i < deliveries.len(),
        0 <= j < deliveries.len(),
        action_at(attempt, deliveries, i) is RequestAssetTransfer,
    ensures
        deliveries[i].callback == answer(attempt.saga_id, CallKind::Payment, CallOutcome::Succeeded),
        run(attempt, deliveries.subrange(0, i)).phase == Phase::PaymentRequested,
        action_at(attempt, deliveries, j) is RequestAssetTransfer ==> i == j,
{
    lemma_run_moves_forward(attempt, deliveries, i, i);
    lemma_run_unfold(attempt, deliveries, i);
    if action_at(attempt, deliveries, j) is RequestAssetTransfer && i != j {
        lemma_run_unfold(attempt, deliveries, j);
        if i < j {
            lemma_run_moves_forward(attempt, deliveries, i + 1, j);
        } else {
            lemma_run_moves_forward(attempt, deliveries, j + 1, i);
        }
    }
}

/// No money moves twice. Whatever answers are delivered to a sale in
/// whatever order, no answer makes the sale ask for a payment; the refund is
/// asked for at most once, it is a refund of the price agreed on to the
/// buyer, and it is asked for only where the payment was made: at the
/// successful answer to the payment, when no payout can be computed, or at
/// an answer to the transfer of the asset that is no success.
pub proof fn lemma_refund_requested_once(attempt: SaleAttemptView, deliveries: Seq<Delivery>,
    i: int, j: int)
    requires
        0 <= i < deliveries.len(),
        0 <= j < deliveries.len(),
    ensures
        !(action_at(attempt, deliveries, i) is RequestPayment),
        action_at(attempt, deliveries, i) is RequestRefund ==> {
            &&& action_at(attempt, deliveries, i)
                == run(attempt, deliveries.subrange(0, i)).refund_request()
            &&& run(attempt, deliveries.subrange(0, i + 1)).phase == Phase::PaymentRefundRequested
            &&& {
                ||| run(attempt, deliveries.subrange(0, i)).phase == Phase::PaymentRequested
                    && deliveries[i].callback
                        == answer(attempt.saga_id, CallKind::Payment, CallOutcome::Succeeded)
                ||| run(attempt, deliveries.subrange(0, i)).phase == Phase::AssetTransferRequested
                    && deliveries[i].callback.call
                        == call_of(attempt.saga_id, CallKind::AssetTransfer)
                        && deliveries[i].callback.outcome != CallOutcome::Succeeded
            }
            &&& action_at(attempt, deliveries, j) is RequestRefund ==> i == j
        },
{
    lemma_run_unfold(attempt, deliveries, i);
    lemma_run_moves_forward(attempt, deliveries, i, i);
    if action_at(attempt, deliveries, i) is RequestRefund
        && action_at(attempt, deliveries, j) is RequestRefund
        && i != j {
        lemma_run_unfold(attempt, deliveries, j);
        if i < j {
            lemma_run_moves_forward(attempt, deliveries, i + 1, j);
        } else {
            lemma_run_moves_forward(attempt, deliveries, j + 1, i);
        }
    }
}

/// Conservation. Of a sale that was accepted and, after whatever answers,
/// has come to be settled, the payout is on record, the royalty legs and the
/// seller's leg add up to the price agreed on exactly, and the seller's leg
/// is the seller's.
pub proof fn lemma_settled_sale_conserves(attempt: SaleAttemptView, deliveries: Seq<Delivery>)
    requires
        attempt.well_formed(),
        run(attempt, deliveries).phase == Phase::Settled,
    ensures
        run(attempt, deliveries).payout is Some,
        conserves(run(attempt, deliveries).payout.unwrap(), attempt.agreed_price_minor),
        run(attempt, deliveries).payout.unwrap().seller.recipient_id == attempt.listing.owner_id,
{
    lemma_run_moves_forward(attempt, deliveries, 0, deliveries.len() as int);
    assert(deliveries.subrange(0, deliveries.len() as int) =~= deliveries);
}

/// Conservation, at the step that asks for the transfer: the payout that is
/// handed to the asset ledger is the one put on record, and it hands out the
/// price agreed on exactly.
pub proof fn lemma_requested_payout_conserves(
    attempt: SaleAttemptView,
    callback: Callback,
    royalty_spec: Seq<RoyaltyView>,
)
    requires
        attempt.step(callback, royalty_spec).1 is RequestAssetTransfer,
    ensures
        attempt.step(callback, royalty_spec).0.payout == Some(
            attempt.step(callback, royalty_spec).1->RequestAssetTransfer_payout,
        ),
        conserves(
            attempt.step(callback, royalty_spec).1->RequestAssetTransfer_payout,
            attempt.agreed_price_minor,
        ),
{
    lemma_payout_conserves(attempt.agreed_price_minor, royalty_spec, attempt.listing.owner_id);
}

/// Compensation, step by step. When the transfer of the asset fails, or no
/// payout can be computed, after the payment was made, the very step that
/// learns of it asks for the refund of the price agreed on to the buyer. A
/// sale is never left holding the buyer's money without waiting for the
/// transfer or the refund, or being on record as failed with the refund
/// failed.
pub proof fn lemma_failure_after_payment_asks_for_refund(
    attempt: SaleAttemptView,
    callback: Callback,
    royalty_spec: Seq<RoyaltyView>,
)
    requires
        attempt.well_formed(),
        attempt.phase == Phase::PaymentRequested || attempt.phase == Phase::AssetTransferRequested,
        attempt.step(callback, royalty_spec).0.phase == Phase::PaymentRefundRequested,
    ensures
        attempt.step(callback, royalty_spec).1 == attempt.refund_request(),
        attempt.step(callback, royalty_spec).1 == (ActionView::RequestRefund {
            call: call_of(attempt.saga_id, CallKind::Refund),
            payee_id: attempt.buyer_id,
            amount_minor: attempt.agreed_price_minor,
        }),
{
}

/// Compensation, in the log. A sale whose refund was asked for, or which has
/// failed, is never released: whatever answer is delivered, its record is
/// still in the log afterwards, waiting for the refund or failed. It comes to
/// be on record as refunded only through the successful answer to its own
/// refund; any other answer to the refund puts it on record as not refunded;
/// and once it has failed its record never changes again.
pub proof fn lemma_unrefunded_sale_stays_on_record(
    log: CompensationLogView,
    id: u64,
    callback: Callback,
    royalty_spec: Seq<RoyaltyView>,
)
    requires
        log.well_formed(),
        log.records.dom().contains(id),
        log.records[id].phase == Phase::PaymentRefundRequested || log.records[id].phase == Phase::Failed,
    ensures
        log.deliver(callback, royalty_spec).0.records.dom().contains(id),
        log.deliver(callback, royalty_spec).0.records[id].phase == Phase::PaymentRefundRequested
            || log.deliver(
            callback,
            royalty_spec,
        ).0.records[id].phase == Phase::Failed,
        log.records[id].phase == Phase::Failed ==> log.deliver(callback, royalty_spec).0.records[id]
            == log.records[id],
        log.records[id].phase == Phase::PaymentRefundRequested ==> {
            &&& callback == answer(id, CallKind::Refund, CallOutcome::Succeeded) <==> log.deliver(
                callback,
                royalty_spec,
            ).0.records[id].failure == Some(FailureKind::Refunded)
            &&& callback.call == call_of(id, CallKind::Refund) && callback.outcome
                != CallOutcome::Succeeded
                    <==> log.deliver(callback, royalty_spec).0.records[id].failure == Some(
                FailureKind::RefundFailed,
            )
            &&& callback.call != call_of(id, CallKind::Refund) ==> log.deliver(
                callback,
                royalty_spec,
            ).0.records[id] == log.records[id]
        },
{
    let other = callback.call.saga_id;
    if log.records.dom().contains(other) {
        assert(log.records[other].saga_id == other);
        lemma_step_moves_forward(log.records[other], callback, royalty_spec);
    }
}

/// No payment is lost. While a sale holds the buyer's money, whatever answer
/// is delivered, one of three things is true afterwards: its record is in
/// the log and the sale still holds the money; its record is in the log as
/// refunded; or the sale is settled, its record is released, and its payout
/// hands out the price agreed on exactly.
pub proof fn lemma_held_payment_is_paid_out_or_refunded(
    log: CompensationLogView,
    id: u64,
    callback: Callback,
    royalty_spec: Seq<RoyaltyView>,
)
    requires
        log.well_formed(),
        log.records.dom().contains(id),
        log.records[id].holds_payment(),
    ensures
        ({
            let after = log.deliver(callback, royalty_spec).0;
            let stepped = log.records[id].step(callback, royalty_spec).0;
            ||| after.records.dom().contains(id) && after.records[id].holds_payment()
            ||| after.records.dom().contains(id)
                && after.records[id].failure == Some(FailureKind::Refunded)
            ||| !after.records.dom().contains(id) && callback.call.saga_id == id && stepped.phase
                == Phase::Settled && stepped.payout is Some && conserves(
                stepped.payout.unwrap(),
                log.records[id].agreed_price_minor,
            )
        }),
{
    let other = callback.call.saga_id;
    if log.records.dom().contains(other) {
        assert(log.records[other].saga_id == other);
        lemma_step_preserves_well_formed(log.records[other], callback, royalty_spec);
    }
}

/// Timeouts compensate. When a sale has waited too long, its record stays in
/// the log. If it waited for its payment, it has failed with no money moved
/// and nothing is asked for. If it waited for the transfer of the asset, the
/// payment was made: the refund of the price agreed on to the buyer is asked
/// for and the record waits for it. If it waited for the refund, it is on
/// record for good as failed and not refunded.
pub proof fn lemma_time_out_compensates(log: CompensationLogView, id: u64)
    requires
        log.well_formed(),
        log.records.dom().contains(id),
    ensures
        log.time_out(id).0.well_formed(),
        log.time_out(id).0.records.dom() == log.records.dom(),
        forall|other: u64| #[trigger]
            log.records.dom().contains(other) && other != id ==> log.time_out(id).0.records[other]
                == log.records[other],
        log.records[id].phase == Phase::PaymentRequested ==> log.time_out(id) == (
            CompensationLogView {
                records: log.records.insert(
                    id,
                    SaleAttemptView {
                        phase: Phase::Failed,
                        failure: Some(FailureKind::PaymentFailed),
                        ..log.records[id]
                    },
                ),
                ..log
            },
            ActionView::Nothing,
        ),
        log.records[id].phase == Phase::AssetTransferRequested ==> log.time_out(id) == (
            CompensationLogView {
                records: log.records.insert(
                    id,
                    SaleAttemptView { phase: Phase::PaymentRefundRequested, ..log.records[id] },
                ),
                ..log
            },
            log.records[id].refund_request(),
        ),
        log.records[id].phase == Phase::PaymentRefundRequested ==> log.time_out(id) == (
            CompensationLogView {
                records: log.records.insert(
                    id,
                    SaleAttemptView {
                        phase: Phase::Failed,
                        failure: Some(FailureKind::RefundFailed),
                        ..log.records[id]
                    },
                ),
                ..log
            },
            ActionView::Nothing,
        ),
        log.records[id].phase == Phase::Failed ==> log.time_out(id) == (log, ActionView::Nothing),
{
    assert(log.records[id].saga_id == id);
    if log.records[id].outstanding_call() is Some {
        let callback = Callback {
            call: log.records[id].outstanding_call().unwrap(),
            outcome: CallOutcome::TimedOut,
        };
        crate::compensation::lemma_deliver_preserves_well_formed(log, callback, Seq::empty());
    }
    assert(log.time_out(id).0.records.dom() =~= log.records.dom());
}

/// The log releases a record only when its sale is settled: whatever answer
/// is delivered, every other record stays, and no record is added.
pub proof fn lemma_only_settled_sales_are_released(
    log: CompensationLogView,
    callback: Callback,
    royalty_spec: Seq<RoyaltyView>,
    id: u64,
)
    requires
        log.well_formed(),
    ensures
        log.deliver(callback, royalty_spec).0.records.dom().contains(id)
            ==> log.records.dom().contains(id),
        log.records.dom().contains(id)
            && !log.deliver(callback, royalty_spec).0.records.dom().contains(id) ==> {
            &&& id == callback.call.saga_id
            &&& log.records[id].phase == Phase::AssetTransferRequested
            &&& callback == answer(id, CallKind::AssetTransfer, CallOutcome::Succeeded)
            &&& log.records[id].step(callback, royalty_spec).0.phase == Phase::Settled
        },
{
    let other = callback.call.saga_id;
    if log.records.dom().contains(other) {
        assert(log.records[other].saga_id == other);
    }
}

/// A sale can be taken up again from its record. Whenever a step moves a
/// sale, what the step asks for is what the new record says is pending; and
/// what an accepted sale asks for first is what its record says is pending.
/// So a caller that lost track of a call finds it again in the record.
pub proof fn lemma_record_tells_what_is_pending(
    attempt: SaleAttemptView,
    callback: Callback,
    royalty_spec: Seq<RoyaltyView>,
)
    ensures
        attempt.step(callback, royalty_spec).0.phase != attempt.phase
            ==> attempt.step(callback, royalty_spec).1
            == attempt.step(callback, royalty_spec).0.pending_action(),
        attempt.phase == Phase::Initiated ==> attempt.request_payment().1
            == attempt.request_payment().0.pending_action(),
        attempt.pending_action() != ActionView::Nothing ==> attempt.outstanding_call() is Some,
{
}

/// Idempotent callbacks, for one sale. Delivering an answer a second time,
/// right after the first, changes nothing and asks for nothing, whatever the
/// royalty specification at hand.
pub proof fn lemma_answer_counts_once(
    attempt: SaleAttemptView,
    callback: Callback,
    royalty_spec: Seq<RoyaltyView>,
    royalty_spec_again: Seq<RoyaltyView>,
)
    ensures
        attempt.step(callback, royalty_spec).0.step(callback, royalty_spec_again) == (
            attempt.step(callback, royalty_spec).0,
            ActionView::Nothing,
        ),
{
}

/// Idempotent callbacks, over the whole life of a sale. An answer to a call
/// moves a sale at most once: once it has, delivering it again at any later
/// time, whatever was delivered in between, changes nothing and asks for
/// nothing.
pub proof fn lemma_answer_moves_sale_once(attempt: SaleAttemptView, deliveries: Seq<Delivery>,
    i: int, j: int)
    requires
        0 <= i < j < deliveries.len(),
        deliveries[i].callback.call == deliveries[j].callback.call,
        moves_at(attempt, deliveries, i),
    ensures
        !moves_at(attempt, deliveries, j),
        action_at(attempt, deliveries, j) == ActionView::Nothing,
{
    lemma_run_unfold(attempt, deliveries, i);
    lemma_run_unfold(attempt, deliveries, j);
    lemma_run_moves_forward(attempt, deliveries, i + 1, j);
    let before = run(attempt, deliveries.subrange(0, i));
    lemma_step_moves_forward(before, deliveries[i].callback, deliveries[i].royalty_spec);
}

/// Idempotent callbacks, in the log. Delivering an answer a second time,
/// right after the first, leaves the log as it is and asks for nothing.
pub proof fn lemma_delivery_counts_once(
    log: CompensationLogView,
    callback: Callback,
    royalty_spec: Seq<RoyaltyView>,
    royalty_spec_again: Seq<RoyaltyView>,
)
    ensures
        log.deliver(callback, royalty_spec).0.deliver(callback, royalty_spec_again) == (
            log.deliver(callback, royalty_spec).0,
            ActionView::Nothing,
        ),
{
    let id = callback.call.saga_id;
    let once = log.deliver(callback, royalty_spec).0;
    if once.records.dom().contains(id) {
        lemma_answer_counts_once(log.records[id], callback, royalty_spec, royalty_spec_again);
        assert(once.records.insert(id, once.records[id]) =~= once.records);
    }
}

} // verus!
