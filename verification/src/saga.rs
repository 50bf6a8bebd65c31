use crate::listing::{Listing, ListingView};
use crate::payout::{
    compute, compute_result, conserves, lemma_payout_conserves, share_views, Payout, PayoutError,
        PayoutView,
    RoyaltyShare, RoyaltyView,
};
use vstd::prelude::*;

verus! {

/// Where a sale stands.
#[derive(Clone, Copy, Debug, PartialEq, Eq, Structural)]
pub enum Phase {
    /// The offer was accepted and the listing taken out of the store.
    Initiated,
    /// The payment was asked for.
    PaymentRequested,
    /// The payment was made.
    PaymentConfirmed,
    /// The transfer of the asset, with the payout, was asked for.
    AssetTransferRequested,
    /// The asset was transferred and the payout made. Final.
    Settled,
    /// The payment was made, the sale fell through, and the refund was asked for.
    PaymentRefundRequested,
    /// The sale fell through. Final.
    Failed,
}

/// How a failed sale ended.
#[derive(Clone, Copy, Debug, PartialEq, Eq, Structural)]
pub enum FailureKind {
    /// The payment was not made: no money moved.
    PaymentFailed,
    /// The payment was made and handed back.
    Refunded,
    /// The payment was made and could not be handed back: somebody has to step in.
    RefundFailed,
}

/// The three calls that a sale can make.
#[derive(Clone, Copy, Debug, PartialEq, Eq, Structural)]
pub enum CallKind {
    Payment,
    AssetTransfer,
    Refund,
}

/// What ties a call to the one answer that is expected for it: the sale and
/// the kind of the call.
#[derive(Clone, Copy, Debug, PartialEq, Eq, Structural)]
pub struct CallId {
    pub saga_id: u64,
    pub kind: CallKind,
}

/// How a call ended. No answer in time counts as a failure.
#[derive(Clone, Copy, Debug, PartialEq, Eq, Structural)]
pub enum CallOutcome {
    Succeeded,
    Failed,
    TimedOut,
}

/// The answer to a call.
#[derive(Clone, Copy, Debug, PartialEq, Eq, Structural)]
pub struct Callback {
    pub call: CallId,
    pub outcome: CallOutcome,
}

/// What the caller is asked to do next.
#[derive(Debug, PartialEq, Eq)]
pub enum Action {
    /// Nothing.
    Nothing,
    /// Collect `amount_minor` from `payer_id`.
    RequestPayment { call: CallId, payer_id: String, amount_minor: u128 },
    /// Transfer the asset to `buyer_id` and make the payout.
    RequestAssetTransfer {
        call: CallId,
        collection_id: String,
        asset_id: String,
        approval_token: u64,
        buyer_id: String,
        payout: Payout,
    },
    /// Hand `amount_minor` back to `payee_id`.
    RequestRefund { call: CallId, payee_id: String, amount_minor: u128 },
}

/// [`Action`] as plain values.
pub enum ActionView {
    Nothing,
    RequestPayment { call: CallId, payer_id: Seq<char>, amount_minor: nat },
    RequestAssetTransfer {
        call: CallId,
        collection_id: Seq<char>,
        asset_id: Seq<char>,
        approval_token: u64,
        buyer_id: Seq<char>,
        payout: PayoutView,
    },
    RequestRefund { call: CallId, payee_id: Seq<char>, amount_minor: nat },
}

impl View for Action {
    type V = ActionView;

    open spec fn view(&self) -> ActionView {
        match *self {
            Action::Nothing => ActionView::Nothing,
            Action::RequestPayment { call, payer_id, amount_minor } => ActionView::RequestPayment {
                call,
                payer_id: payer_id@,
                amount_minor: amount_minor as nat,
            },
            Action::RequestAssetTransfer {
                call,
                collection_id,
                asset_id,
                approval_token,
                buyer_id,
                payout,
            } => ActionView::RequestAssetTransfer {
                call,
                collection_id: collection_id@,
                asset_id: asset_id@,
                approval_token,
                buyer_id: buyer_id@,
                payout: payout@,
            },
            Action::RequestRefund { call, payee_id, amount_minor } => ActionView::RequestRefund {
                call,
                payee_id: payee_id@,
                amount_minor: amount_minor as nat,
            },
        }
    }
}

/// The record of one sale: the listing as it was when the offer was accepted,
/// the buyer, the price agreed on, where the sale stands, the payout once it
/// was computed, when the sale began, and how it failed if it did.
#[derive(Debug, PartialEq, Eq)]
pub struct SaleAttempt {
    pub saga_id: u64,
    pub listing: Listing,
    pub buyer_id: String,
    pub agreed_price_minor: u128,
    pub phase: Phase,
    pub payout: Option<Payout>,
    pub created_at: u64,
    pub failure: Option<FailureKind>,
}

/// [`SaleAttempt`] as plain values.
pub struct SaleAttemptView {
    pub saga_id: u64,
    pub listing: ListingView,
    pub buyer_id: Seq<char>,
    pub agreed_price_minor: nat,
    pub phase: Phase,
    pub payout: Option<PayoutView>,
    pub created_at: u64,
    pub failure: Option<FailureKind>,
}

/// The payout of an optional payout as plain values.
pub open spec fn opt_payout(payout: Option<Payout>) -> Option<PayoutView> {
    match payout {
        Some(p) => Some(p@),
        None => None,
    }
}

impl View for SaleAttempt {
    type V = SaleAttemptView;

    open spec fn view(&self) -> SaleAttemptView {
        SaleAttemptView {
            saga_id: self.saga_id,
            listing: self.listing@,
            buyer_id: self.buyer_id@,
            agreed_price_minor: self.agreed_price_minor as nat,
            phase: self.phase,
            payout: opt_payout(self.payout),
            created_at: self.created_at,
            failure: self.failure,
        }
    }
}

/// The records of a list as plain values.
pub open spec fn sale_views(records: Seq<SaleAttempt>) -> Seq<SaleAttemptView> {
    records.map_values(|a: SaleAttempt| a@)
}

/// The id of the call of the given kind of the sale with the given id.
pub open spec fn call_of(saga_id: u64, kind: CallKind) -> CallId {
    CallId { saga_id, kind }
}

/// Whether the call ended well.
pub open spec fn succeeded(outcome: CallOutcome) -> bool {
    outcome == CallOutcome::Succeeded
}

impl Phase {
    /// Whether the sale has ended.
    pub open spec fn is_terminal(self) -> bool {
        self == Phase::Settled || self == Phase::Failed
    }

    /// How far the sale has come. Every change of phase moves it further.
    pub open spec fn rank(self) -> nat {
        match self {
            Phase::Initiated => 0,
            Phase::PaymentRequested => 1,
            Phase::PaymentConfirmed => 2,
            Phase::AssetTransferRequested => 3,
            Phase::PaymentRefundRequested => 4,
            Phase::Settled => 5,
            Phase::Failed => 5,
        }
    }

    /// Whether the sale has ended.
    pub fn terminal(&self) -> (ended: bool)
        ensures
            ended == self.is_terminal(),
    {
        match self {
            Phase::Settled => true,
            Phase::Failed => true,
            _ => false,
        }
    }
}

impl SaleAttemptView {
    /// The record of a sale that was just accepted.
    pub open spec fn initiated(
        saga_id: u64,
        listing: ListingView,
        buyer_id: Seq<char>,
        agreed_price_minor: nat,
        created_at: u64,
    ) -> SaleAttemptView {
        SaleAttemptView {
            saga_id,
            listing,
            buyer_id,
            agreed_price_minor,
            phase: Phase::Initiated,
            payout: None,
            created_at,
            failure: None,
        }
    }

    /// What holds of every record that the sale's own steps produce: the
    /// buyer is not the seller, the price agreed on is at least the listed
    /// price, which is above zero, a failure is recorded exactly for failed
    /// sales, and once the transfer of the asset was asked for the payout is
    /// recorded, pays the seller what the royalties leave, and hands out the
    /// price agreed on exactly.
    pub open spec fn well_formed(self) -> bool {
        &&& self.buyer_id != self.listing.owner_id
        &&& self.listing.price_minor > 0
        &&& self.agreed_price_minor >= self.listing.price_minor
        &&& (self.phase == Phase::Failed <==> self.failure is Some)
        &&& (self.phase == Phase::AssetTransferRequested || self.phase == Phase::Settled)
            ==> self.payout is Some
        &&& self.payout matches Some(payout) ==> conserves(payout, self.agreed_price_minor)
            && payout.seller.recipient_id == self.listing.owner_id
        &&& self.payout is Some
            ==> self.phase != Phase::Initiated && self.phase != Phase::PaymentRequested
            && self.phase != Phase::PaymentConfirmed && self.failure != Some(FailureKind::PaymentFailed)
    }

    /// Whether the buyer's money is held: it was collected and neither paid
    /// out nor handed back.
    pub open spec fn holds_payment(self) -> bool {
        ||| self.phase == Phase::PaymentConfirmed
        ||| self.phase == Phase::AssetTransferRequested
        ||| self.phase == Phase::PaymentRefundRequested
        ||| self.failure == Some(FailureKind::RefundFailed)
    }

    /// The call whose answer the sale waits for, if it waits for one.
    pub open spec fn outstanding_call(self) -> Option<CallId> {
        match self.phase {
            Phase::PaymentRequested => Some(call_of(self.saga_id, CallKind::Payment)),
            Phase::AssetTransferRequested => Some(call_of(self.saga_id, CallKind::AssetTransfer)),
            Phase::PaymentRefundRequested => Some(call_of(self.saga_id, CallKind::Refund)),
            _ => None,
        }
    }

    /// The refund of the price agreed on to the buyer.
    pub open spec fn refund_request(self) -> ActionView {
        ActionView::RequestRefund {
            call: call_of(self.saga_id, CallKind::Refund),
            payee_id: self.buyer_id,
            amount_minor: self.agreed_price_minor,
        }
    }

    /// The payment of the price agreed on by the buyer.
    pub open spec fn payment_request(self) -> ActionView {
        ActionView::RequestPayment {
            call: call_of(self.saga_id, CallKind::Payment),
            payer_id: self.buyer_id,
            amount_minor: self.agreed_price_minor,
        }
    }

    /// The transfer of the listed asset to the buyer, with the given payout.
    pub open spec fn transfer_request(self, payout: PayoutView) -> ActionView {
        ActionView::RequestAssetTransfer {
            call: call_of(self.saga_id, CallKind::AssetTransfer),
            collection_id: self.listing.collection_id,
            asset_id: self.listing.asset_id,
            approval_token: self.listing.approval_token,
            buyer_id: self.buyer_id,
            payout,
        }
    }

    /// The call whose answer the sale waits for, as it was asked for: what a
    /// caller that lost track of the sale has to ask for again. A sale that
    /// waits for nothing asks for nothing.
    pub open spec fn pending_action(self) -> ActionView {
        match self.phase {
            Phase::PaymentRequested => self.payment_request(),
            Phase::AssetTransferRequested => match self.payout {
                Some(payout) => self.transfer_request(payout),
                None => ActionView::Nothing,
            },
            Phase::PaymentRefundRequested => self.refund_request(),
            _ => ActionView::Nothing,
        }
    }

    /// An accepted sale asks for the payment of the price agreed on by the buyer.
    pub open spec fn request_payment(self) -> (SaleAttemptView, ActionView) {
        if self.phase == Phase::Initiated {
            (SaleAttemptView { phase: Phase::PaymentRequested, ..self }, self.payment_request())
        } else {
            (self, ActionView::Nothing)
        }
    }

    /// The answer to the payment: made, or the sale has failed with no money moved.
    pub open spec fn confirm_payment(self, outcome: CallOutcome) -> SaleAttemptView {
        if self.phase == Phase::PaymentRequested {
            if succeeded(outcome) {
                SaleAttemptView { phase: Phase::PaymentConfirmed, ..self }
            } else {
                SaleAttemptView {
                    phase: Phase::Failed,
                    failure: Some(FailureKind::PaymentFailed),
                    ..self
                }
            }
        } else {
            self
        }
    }

    /// Once the payment was made, the payout is computed and the transfer of
    /// the asset asked for; where no payout can be computed, the refund is
    /// asked for instead.
    pub open spec fn request_asset_transfer(self, royalty_spec: Seq<RoyaltyView>) -> (
        SaleAttemptView,
        ActionView,
    ) {
        if self.phase == Phase::PaymentConfirmed {
            match compute_result(self.agreed_price_minor, royalty_spec, self.listing.owner_id) {
                Ok(payout) => (
                    SaleAttemptView {
                        phase: Phase::AssetTransferRequested,
                        payout: Some(payout),
                        ..self
                    },
                    self.transfer_request(payout),
                ),
                Err(_) => (
                    SaleAttemptView { phase: Phase::PaymentRefundRequested, ..self },
                    self.refund_request(),
                ),
            }
        } else {
            (self, ActionView::Nothing)
        }
    }

    /// The answer to the transfer of the asset: the sale is settled, or the
    /// refund is asked for.
    pub open spec fn resolve_transfer(self, outcome: CallOutcome) -> (SaleAttemptView, ActionView) {
        if self.phase == Phase::AssetTransferRequested {
            if succeeded(outcome) {
                (SaleAttemptView { phase: Phase::Settled, ..self }, ActionView::Nothing)
            } else {
                (SaleAttemptView { phase: Phase::PaymentRefundRequested, ..self }, self.refund_request())
            }
        } else {
            (self, ActionView::Nothing)
        }
    }

    /// The answer to the refund: the sale has failed, with the money handed
    /// back or not.
    pub open spec fn resolve_refund(self, outcome: CallOutcome) -> SaleAttemptView {
        if self.phase == Phase::PaymentRefundRequested {
            SaleAttemptView {
                phase: Phase::Failed,
                failure: Some(
                    if succeeded(outcome) {
                        FailureKind::Refunded
                    } else {
                        FailureKind::RefundFailed
                    },
                ),
                ..self
            }
        } else {
            self
        }
    }

    /// What an answer does to a sale. An answer to any call but the one that
    /// the sale waits for does nothing.
    pub open spec fn step(self, callback: Callback, royalty_spec: Seq<RoyaltyView>) -> (
        SaleAttemptView,
        ActionView,
    ) {
        if self.outstanding_call() != Some(callback.call) {
            (self, ActionView::Nothing)
        } else {
            match callback.call.kind {
                CallKind::Payment => self.confirm_payment(callback.outcome).request_asset_transfer(
                    royalty_spec,
                ),
                CallKind::AssetTransfer => self.resolve_transfer(callback.outcome),
                CallKind::Refund => (self.resolve_refund(callback.outcome), ActionView::Nothing),
            }
        }
    }
}

/// Every step of a sale keeps its record well formed, leaves who trades what
/// at which price untouched, and never moves the sale back.
pub proof fn lemma_step_preserves_well_formed(
    attempt: SaleAttemptView,
    callback: Callback,
    royalty_spec: Seq<RoyaltyView>,
)
    requires
        attempt.well_formed(),
    ensures
        attempt.step(callback, royalty_spec).0.well_formed(),
        attempt.step(callback, royalty_spec).0.saga_id == attempt.saga_id,
        attempt.step(callback, royalty_spec).0.listing == attempt.listing,
        attempt.step(callback, royalty_spec).0.buyer_id == attempt.buyer_id,
        attempt.step(callback, royalty_spec).0.agreed_price_minor == attempt.agreed_price_minor,
        attempt.step(callback, royalty_spec).0.created_at == attempt.created_at,
        attempt.step(callback, royalty_spec).0.phase.rank() >= attempt.phase.rank(),
        attempt.step(callback, royalty_spec).0.phase != attempt.phase ==> attempt.step(
            callback,
            royalty_spec,
        ).0.phase.rank() > attempt.phase.rank(),
{
    if attempt.outstanding_call() == Some(callback.call) && callback.call.kind == CallKind::Payment {
        let confirmed = attempt.confirm_payment(callback.outcome);
        if confirmed.phase == Phase::PaymentConfirmed {
            if compute_result(attempt.agreed_price_minor, royalty_spec, attempt.listing.owner_id) is Ok {
                lemma_payout_conserves(attempt.agreed_price_minor, royalty_spec,
                    attempt.listing.owner_id);
            }
        }
    }
}

impl SaleAttempt {
    /// A copy of the record.
    pub fn duplicate(&self) -> (copy: SaleAttempt)
        ensures
            copy@ == self@,
    {
        SaleAttempt {
            saga_id: self.saga_id,
            listing: self.listing.duplicate(),
            buyer_id: self.buyer_id.clone(),
            agreed_price_minor: self.agreed_price_minor,
            phase: self.phase,
            payout: match &self.payout {
                Some(p) => Some(p.duplicate()),
                None => None,
            },
            created_at: self.created_at,
            failure: self.failure,
        }
    }

    /// Whether the record is well formed.
    pub fn is_well_formed(&self) -> (ok: bool)
        ensures
            ok == self@.well_formed(),
    {
        if self.buyer_id == self.listing.owner_id {
            return false;
        }
        if self.listing.price_minor == 0 || self.agreed_price_minor < self.listing.price_minor {
            return false;
        }
        let failed: bool = match self.phase {
            Phase::Failed => true,
            _ => false,
        };
        if failed != self.failure.is_some() {
            return false;
        }
        let payment_failed: bool = match self.failure {
            Some(FailureKind::PaymentFailed) => true,
            _ => false,
        };
        match &self.payout {
            None => match self.phase {
                Phase::AssetTransferRequested => false,
                Phase::Settled => false,
                _ => true,
            },
            Some(payout) => {
                let early: bool = match self.phase {
                    Phase::Initiated => true,
                    Phase::PaymentRequested => true,
                    Phase::PaymentConfirmed => true,
                    _ => false,
                };
                !early && !payment_failed && payout.seller.recipient_id == self.listing.owner_id
                    && payout.hands_out(self.agreed_price_minor)
            },
        }
    }

    /// The record of a sale that was just accepted.
    pub fn initiated(
        saga_id: u64,
        listing: Listing,
        buyer_id: String,
        agreed_price_minor: u128,
        created_at: u64,
    ) -> (attempt: SaleAttempt)
        ensures
            attempt@ == SaleAttemptView::initiated(
                saga_id,
                listing@,
                buyer_id@,
                agreed_price_minor as nat,
                created_at,
            ),
    {
        SaleAttempt {
            saga_id,
            listing,
            buyer_id,
            agreed_price_minor,
            phase: Phase::Initiated,
            payout: None,
            created_at,
            failure: None,
        }
    }

    /// Whether the given call is the one whose answer the sale waits for.
    pub fn awaits(&self, call: CallId) -> (waits: bool)
        ensures
            waits == (self@.outstanding_call() == Some(call)),
    {
        if call.saga_id != self.saga_id {
            return false;
        }
        match self.phase {
            Phase::PaymentRequested => call.kind == CallKind::Payment,
            Phase::AssetTransferRequested => call.kind == CallKind::AssetTransfer,
            Phase::PaymentRefundRequested => call.kind == CallKind::Refund,
            _ => false,
        }
    }

    /// The call whose answer the sale waits for, as it was asked for: what a
    /// caller that lost track of the sale has to ask for again. A sale that
    /// waits for nothing asks for nothing.
    pub fn pending_action(&self) -> (action: Action)
        ensures
            action@ == self@.pending_action(),
    {
        match self.phase {
            Phase::PaymentRequested => Action::RequestPayment {
                call: CallId { saga_id: self.saga_id, kind: CallKind::Payment },
                payer_id: self.buyer_id.clone(),
                amount_minor: self.agreed_price_minor,
            },
            Phase::AssetTransferRequested => match &self.payout {
                Some(payout) => Action::RequestAssetTransfer {
                    call: CallId { saga_id: self.saga_id, kind: CallKind::AssetTransfer },
                    collection_id: self.listing.collection_id.clone(),
                    asset_id: self.listing.asset_id.clone(),
                    approval_token: self.listing.approval_token,
                    buyer_id: self.buyer_id.clone(),
                    payout: payout.duplicate(),
                },
                None => Action::Nothing,
            },
            Phase::PaymentRefundRequested => self.refund_request(),
            _ => Action::Nothing,
        }
    }

    fn refund_request(&self) -> (action: Action)
        ensures
            action@ == self@.refund_request(),
    {
        Action::RequestRefund {
            call: CallId { saga_id: self.saga_id, kind: CallKind::Refund },
            payee_id: self.buyer_id.clone(),
            amount_minor: self.agreed_price_minor,
        }
    }

    /// An accepted sale asks for the payment of the price agreed on by the
    /// buyer. At any other phase nothing happens.
    pub fn request_payment(self) -> (next: (SaleAttempt, Action))
        ensures
            (next.0@, next.1@) == self@.request_payment(),
    {
        match self.phase {
            Phase::Initiated => {
                let action = Action::RequestPayment {
                    call: CallId { saga_id: self.saga_id, kind: CallKind::Payment },
                    payer_id: self.buyer_id.clone(),
                    amount_minor: self.agreed_price_minor,
                };
                let mut next = self;
                next.phase = Phase::PaymentRequested;
                (next, action)
            },
            _ => (self, Action::Nothing),
        }
    }

    /// Records the answer to the payment. At any phase but
    /// [`Phase::PaymentRequested`] nothing happens.
    pub fn confirm_payment(self, outcome: CallOutcome) -> (next: SaleAttempt)
        ensures
            next@ == self@.confirm_payment(outcome),
    {
        match self.phase {
            Phase::PaymentRequested => {
                let mut next = self;
                match outcome {
                    CallOutcome::Succeeded => {
                        next.phase = Phase::PaymentConfirmed;
                    },
                    _ => {
                        next.phase = Phase::Failed;
                        next.failure = Some(FailureKind::PaymentFailed);
                    },
                }
                next
            },
            _ => self,
        }
    }

    /// Once the payment was made, computes the payout and asks for the
    /// transfer of the asset; where no payout can be computed, asks for the
    /// refund instead. At any phase but [`Phase::PaymentConfirmed`] nothing
    /// happens: the transfer is never asked for before the payment was made.
    pub fn request_asset_transfer(self, royalty_spec: &Vec<RoyaltyShare>) -> (next: (SaleAttempt,
        Action))
        ensures
            (next.0@, next.1@) == self@.request_asset_transfer(share_views(royalty_spec@)),
            next.1 is RequestAssetTransfer ==> self.phase == Phase::PaymentConfirmed,
    {
        match self.phase {
            Phase::PaymentConfirmed => {
                match compute(self.agreed_price_minor, royalty_spec, &self.listing.owner_id) {
                    Ok(payout) => {
                        let action = Action::RequestAssetTransfer {
                            call: CallId { saga_id: self.saga_id, kind: CallKind::AssetTransfer },
                            collection_id: self.listing.collection_id.clone(),
                            asset_id: self.listing.asset_id.clone(),
                            approval_token: self.listing.approval_token,
                            buyer_id: self.buyer_id.clone(),
                            payout: payout.duplicate(),
                        };
                        let mut next = self;
                        next.phase = Phase::AssetTransferRequested;
                        next.payout = Some(payout);
                        (next, action)
                    },
                    Err(_) => {
                        let action = self.refund_request();
                        let mut next = self;
                        next.phase = Phase::PaymentRefundRequested;
                        (next, action)
                    },
                }
            },
            _ => (self, Action::Nothing),
        }
    }

    /// Records the answer to the transfer of the asset: the sale is settled,
    /// or the refund is asked for. At any phase but
    /// [`Phase::AssetTransferRequested`] nothing happens.
    pub fn resolve_transfer(self, outcome: CallOutcome) -> (next: (SaleAttempt, Action))
        ensures
            (next.0@, next.1@) == self@.resolve_transfer(outcome),
    {
        match self.phase {
            Phase::AssetTransferRequested => {
                match outcome {
                    CallOutcome::Succeeded => {
                        let mut next = self;
                        next.phase = Phase::Settled;
                        (next, Action::Nothing)
                    },
                    _ => {
                        let action = self.refund_request();
                        let mut next = self;
                        next.phase = Phase::PaymentRefundRequested;
                        (next, action)
                    },
                }
            },
            _ => (self, Action::Nothing),
        }
    }

    /// Records the answer to the refund: the sale has failed, with the money
    /// handed back or not. At any phase but [`Phase::PaymentRefundRequested`]
    /// nothing happens.
    pub fn resolve_refund(self, outcome: CallOutcome) -> (next: SaleAttempt)
        ensures
            next@ == self@.resolve_refund(outcome),
    {
        match self.phase {
            Phase::PaymentRefundRequested => {
                let mut next = self;
                next.phase = Phase::Failed;
                next.failure = Some(
                    match outcome {
                        CallOutcome::Succeeded => FailureKind::Refunded,
                        _ => FailureKind::RefundFailed,
                    },
                );
                next
            },
            _ => self,
        }
    }

    /// Applies an answer to the sale and says what to do next. An answer to
    /// any call but the one that the sale waits for changes nothing and asks
    /// for nothing, so an answer that comes twice counts once.
    pub fn step(self, callback: Callback, royalty_spec: &Vec<RoyaltyShare>) -> (next: (SaleAttempt,
        Action))
        ensures
            (next.0@, next.1@) == self@.step(callback, share_views(royalty_spec@)),
    {
        if !self.awaits(callback.call) {
            return (self, Action::Nothing);
        }
        match callback.call.kind {
            CallKind::Payment => self.confirm_payment(callback.outcome).request_asset_transfer(royalty_spec),
            CallKind::AssetTransfer => self.resolve_transfer(callback.outcome),
            CallKind::Refund => (self.resolve_refund(callback.outcome), Action::Nothing),
        }
    }
}

} // verus!
