use marketplace::compensation::CompensationLog;
use marketplace::listing::{Listing, ListingStore};
use marketplace::market::{after_ft_transfer, offer, process_purchase, resolve_purchase, resolve_refund, Offer, OfferError};
use marketplace::payout::{Payout, PayoutLeg, RoyaltyShare};
use marketplace::saga::{
    Action, CallId, CallKind, CallOutcome, Callback, FailureKind, Phase, SaleAttempt,
};

fn listing() -> Listing {
    Listing {
        collection_id: "nft.testnet".to_string(),
        asset_id: "token-1".to_string(),
        owner_id: "seller".to_string(),
        price_minor: 1000,
        approval_token: 11,
    }
}

fn bid(buyer: &str, amount: u128) -> Offer {
    Offer {
        collection_id: "nft.testnet".to_string(),
        asset_id: "token-1".to_string(),
        buyer_id: buyer.to_string(),
        bid_amount_minor: amount,
    }
}

fn market() -> (ListingStore, CompensationLog) {
    let mut store = ListingStore::new();
    store.insert(listing()).unwrap();
    (store, CompensationLog::new())
}

fn call(saga_id: u64, kind: CallKind) -> CallId {
    CallId { saga_id, kind }
}

fn royalty(recipient: &str, basis_points: u32) -> RoyaltyShare {
    RoyaltyShare { recipient_id: recipient.to_string(), basis_points }
}

fn leg(recipient: &str, amount_minor: u128) -> PayoutLeg {
    PayoutLeg { recipient_id: recipient.to_string(), amount_minor }
}

fn record(phase: Phase, payout: Option<Payout>, failure: Option<FailureKind>) -> SaleAttempt {
    SaleAttempt {
        saga_id: 0,
        listing: listing(),
        buyer_id: "buyer".to_string(),
        agreed_price_minor: 1000,
        phase,
        payout,
        created_at: 50,
        failure,
    }
}

fn refund_of_the_bid() -> Action {
    Action::RequestRefund { call: call(0, CallKind::Refund), payee_id: "buyer".to_string(), amount_minor: 1000 }
}

#[test]
fn sale_at_the_listed_price_settles() {
    let (mut store, mut log) = market();
    let action = offer(&mut store, &mut log, bid("buyer", 1000), 50).unwrap();
    assert_eq!(
        action,
        Action::RequestPayment {
            call: call(0, CallKind::Payment),
            payer_id: "buyer".to_string(),
            amount_minor: 1000,
        }
    );
    assert_eq!(store.len(), 0);
    assert_eq!(log.get(0), Some(record(Phase::PaymentRequested, None, None)));

    let action = after_ft_transfer(&mut log, 0, CallOutcome::Succeeded, &vec![]);
    let payout = Payout { royalties: vec![], seller: leg("seller", 1000) };
    assert_eq!(
        action,
        Action::RequestAssetTransfer {
            call: call(0, CallKind::AssetTransfer),
            collection_id: "nft.testnet".to_string(),
            asset_id: "token-1".to_string(),
            approval_token: 11,
            buyer_id: "buyer".to_string(),
            payout: payout.duplicate(),
        }
    );
    assert_eq!(log.get(0), Some(record(Phase::AssetTransferRequested, Some(payout), None)));

    let action = resolve_purchase(&mut log, 0, CallOutcome::Succeeded);
    assert_eq!(action, Action::Nothing);
    assert_eq!(log.get(0), None);
    assert_eq!(log.len(), 0);
    assert_eq!(log.next_saga_id(), 1);
}

#[test]
fn low_bid_is_rejected_and_nothing_changes() {
    let (mut store, mut log) = market();
    assert_eq!(offer(&mut store, &mut log, bid("buyer", 500), 50), Err(OfferError::BidTooLow));
    assert_eq!(offer(&mut store, &mut log, bid("buyer", 999), 50), Err(OfferError::BidTooLow));
    assert_eq!(store.listings(), vec![listing()]);
    assert_eq!(log.len(), 0);
    assert_eq!(log.next_saga_id(), 0);
}

#[test]
fn sale_with_royalty_pays_recipient_and_seller() {
    let (mut store, mut log) = market();
    offer(&mut store, &mut log, bid("buyer", 1000), 50).unwrap();
    let action = after_ft_transfer(&mut log, 0, CallOutcome::Succeeded, &vec![royalty("R1", 1000)]);
    match action {
        Action::RequestAssetTransfer { payout, .. } => {
            assert_eq!(payout, Payout { royalties: vec![leg("R1", 100)], seller: leg("seller", 900) });
        },
        other => panic!("{:?}", other),
    }
}

#[test]
fn failed_transfer_is_refunded() {
    let (mut store, mut log) = market();
    offer(&mut store, &mut log, bid("buyer", 1000), 50).unwrap();
    after_ft_transfer(&mut log, 0, CallOutcome::Succeeded, &vec![]);
    let action = resolve_purchase(&mut log, 0, CallOutcome::Failed);
    assert_eq!(action, refund_of_the_bid());
    assert_eq!(log.get(0).unwrap().phase, Phase::PaymentRefundRequested);
    let action = resolve_refund(&mut log, 0, CallOutcome::Succeeded);
    assert_eq!(action, Action::Nothing);
    let payout = Payout { royalties: vec![], seller: leg("seller", 1000) };
    assert_eq!(log.get(0), Some(record(Phase::Failed, Some(payout), Some(FailureKind::Refunded))));
    assert_eq!(store.len(), 0);
}

#[test]
fn second_offer_finds_no_listing() {
    let (mut store, mut log) = market();
    let first = offer(&mut store, &mut log, bid("buyer", 1000), 50);
    let second = offer(&mut store, &mut log, bid("rival", 2000), 50);
    assert!(first.is_ok());
    assert_eq!(second, Err(OfferError::ListingNotFound));
    assert_eq!(log.len(), 1);
    assert_eq!(log.get(0).unwrap().buyer_id, "buyer");

    let (mut store, mut log) = market();
    let second = offer(&mut store, &mut log, bid("rival", 2000), 50);
    let first = offer(&mut store, &mut log, bid("buyer", 1000), 50);
    assert!(second.is_ok());
    assert_eq!(first, Err(OfferError::ListingNotFound));
    assert_eq!(log.len(), 1);
    assert_eq!(log.get(0).unwrap().agreed_price_minor, 2000);
}

#[test]
fn bid_above_the_price_is_the_price_agreed_on() {
    let (mut store, mut log) = market();
    let action = offer(&mut store, &mut log, bid("buyer", 1500), 50).unwrap();
    assert_eq!(
        action,
        Action::RequestPayment {
            call: call(0, CallKind::Payment),
            payer_id: "buyer".to_string(),
            amount_minor: 1500,
        }
    );
    let action = after_ft_transfer(&mut log, 0, CallOutcome::Succeeded, &vec![royalty("R1", 2500)]);
    match action {
        Action::RequestAssetTransfer { payout, .. } => {
            assert_eq!(payout, Payout { royalties: vec![leg("R1", 375)], seller: leg("seller", 1125) });
        },
        other => panic!("{:?}", other),
    }
}

#[test]
fn zero_bid_is_rejected() {
    let (mut store, mut log) = market();
    assert_eq!(offer(&mut store, &mut log, bid("buyer", 0), 50), Err(OfferError::ZeroAmount));
    assert_eq!(offer(&mut store, &mut log, bid("seller", 0), 50), Err(OfferError::ZeroAmount));
    let mut elsewhere = bid("buyer", 0);
    elsewhere.asset_id = "token-2".to_string();
    assert_eq!(offer(&mut store, &mut log, elsewhere, 50), Err(OfferError::ZeroAmount));
    assert_eq!(store.len(), 1);
}

#[test]
fn offer_for_what_is_not_listed_is_rejected() {
    let (mut store, mut log) = market();
    let mut elsewhere = bid("buyer", 1000);
    elsewhere.asset_id = "token-2".to_string();
    assert_eq!(offer(&mut store, &mut log, elsewhere, 50), Err(OfferError::ListingNotFound));
    let mut elsewhere = bid("seller", 1000);
    elsewhere.collection_id = "other.testnet".to_string();
    assert_eq!(offer(&mut store, &mut log, elsewhere, 50), Err(OfferError::ListingNotFound));
    assert_eq!(store.len(), 1);
    assert_eq!(log.len(), 0);
}

#[test]
fn owner_cannot_buy_the_own_listing() {
    let (mut store, mut log) = market();
    assert_eq!(offer(&mut store, &mut log, bid("seller", 1000), 50), Err(OfferError::SelfTradeRejected));
    assert_eq!(offer(&mut store, &mut log, bid("seller", 1), 50), Err(OfferError::SelfTradeRejected));
    assert_eq!(store.len(), 1);
    assert_eq!(log.len(), 0);
}

#[test]
fn offer_needs_an_id_for_the_sale() {
    let mut store = ListingStore::new();
    store.insert(listing()).unwrap();
    let mut log = CompensationLog::restore(vec![], u64::MAX).unwrap();
    assert_eq!(offer(&mut store, &mut log, bid("buyer", 1000), 50), Err(OfferError::SagaIdsExhausted));
    assert_eq!(store.len(), 1);
    let mut log = CompensationLog::restore(vec![], u64::MAX - 1).unwrap();
    let action = offer(&mut store, &mut log, bid("buyer", 1000), 50).unwrap();
    assert_eq!(
        action,
        Action::RequestPayment {
            call: call(u64::MAX - 1, CallKind::Payment),
            payer_id: "buyer".to_string(),
            amount_minor: 1000,
        }
    );
    assert_eq!(log.next_saga_id(), u64::MAX);
}

#[test]
fn process_purchase_is_what_offer_does() {
    let (mut store, mut log) = market();
    let refused = process_purchase(
        &mut store,
        &mut log,
        "nft.testnet".to_string(),
        "token-1".to_string(),
        999,
        "buyer".to_string(),
        50,
    );
    assert_eq!(refused, Err(OfferError::BidTooLow));
    let action = process_purchase(
        &mut store,
        &mut log,
        "nft.testnet".to_string(),
        "token-1".to_string(),
        1000,
        "buyer".to_string(),
        50,
    );
    assert_eq!(
        action,
        Ok(Action::RequestPayment {
            call: call(0, CallKind::Payment),
            payer_id: "buyer".to_string(),
            amount_minor: 1000,
        })
    );
    assert_eq!(store.len(), 0);
    assert_eq!(log.get(0), Some(record(Phase::PaymentRequested, None, None)));
}

#[test]
fn sales_get_rising_ids() {
    let mut store = ListingStore::new();
    let mut log = CompensationLog::new();
    for n in 0..3u64 {
        let mut item = listing();
        item.asset_id = format!("token-{}", n);
        store.insert(item).unwrap();
        let mut b = bid("buyer", 1000 + n as u128);
        b.asset_id = format!("token-{}", n);
        let action = offer(&mut store, &mut log, b, n).unwrap();
        assert_eq!(
            action,
            Action::RequestPayment {
                call: call(n, CallKind::Payment),
                payer_id: "buyer".to_string(),
                amount_minor: 1000 + n as u128,
            }
        );
    }
    assert_eq!(log.len(), 3);
    assert_eq!(log.next_saga_id(), 3);
    let ids: Vec<u64> = log.records().iter().map(|r| r.saga_id).collect();
    assert_eq!(ids, vec![0, 1, 2]);
}

#[test]
fn failed_payment_fails_the_sale_without_refund() {
    for outcome in [CallOutcome::Failed, CallOutcome::TimedOut] {
        let (mut store, mut log) = market();
        offer(&mut store, &mut log, bid("buyer", 1000), 50).unwrap();
        let action = after_ft_transfer(&mut log, 0, outcome, &vec![]);
        assert_eq!(action, Action::Nothing);
        assert_eq!(log.get(0), Some(record(Phase::Failed, None, Some(FailureKind::PaymentFailed))));
        assert_eq!(store.len(), 0);
    }
}

#[test]
fn timed_out_transfer_is_refunded() {
    let (mut store, mut log) = market();
    offer(&mut store, &mut log, bid("buyer", 1000), 50).unwrap();
    after_ft_transfer(&mut log, 0, CallOutcome::Succeeded, &vec![]);
    assert_eq!(resolve_purchase(&mut log, 0, CallOutcome::TimedOut), refund_of_the_bid());
    assert_eq!(log.get(0).unwrap().phase, Phase::PaymentRefundRequested);
}

#[test]
fn rejected_payout_is_refunded() {
    let (mut store, mut log) = market();
    offer(&mut store, &mut log, bid("buyer", 1000), 50).unwrap();
    let action = after_ft_transfer(&mut log, 0, CallOutcome::Succeeded, &vec![royalty("R1", 10_001)]);
    assert_eq!(action, refund_of_the_bid());
    assert_eq!(log.get(0), Some(record(Phase::PaymentRefundRequested, None, None)));
    assert_eq!(resolve_refund(&mut log, 0, CallOutcome::Succeeded), Action::Nothing);
    assert_eq!(log.get(0), Some(record(Phase::Failed, None, Some(FailureKind::Refunded))));
}

#[test]
fn failed_refund_stays_on_record() {
    for outcome in [CallOutcome::Failed, CallOutcome::TimedOut] {
        let (mut store, mut log) = market();
        offer(&mut store, &mut log, bid("buyer", 1000), 50).unwrap();
        after_ft_transfer(&mut log, 0, CallOutcome::Succeeded, &vec![]);
        resolve_purchase(&mut log, 0, CallOutcome::Failed);
        assert_eq!(resolve_refund(&mut log, 0, outcome), Action::Nothing);
        let kept = log.get(0).unwrap();
        assert_eq!(kept.phase, Phase::Failed);
        assert_eq!(kept.failure, Some(FailureKind::RefundFailed));
        assert_eq!(resolve_refund(&mut log, 0, CallOutcome::Succeeded), Action::Nothing);
        assert_eq!(log.get(0), Some(kept));
    }
}

#[test]
fn answer_delivered_twice_counts_once() {
    let (mut store, mut log) = market();
    offer(&mut store, &mut log, bid("buyer", 1000), 50).unwrap();
    let first = after_ft_transfer(&mut log, 0, CallOutcome::Succeeded, &vec![]);
    assert!(matches!(first, Action::RequestAssetTransfer { .. }));
    let after_first = log.get(0);
    let again = after_ft_transfer(&mut log, 0, CallOutcome::Succeeded, &vec![royalty("R1", 1000)]);
    assert_eq!(again, Action::Nothing);
    assert_eq!(log.get(0), after_first);

    assert_eq!(resolve_purchase(&mut log, 0, CallOutcome::Failed), refund_of_the_bid());
    let after_failure = log.get(0);
    assert_eq!(resolve_purchase(&mut log, 0, CallOutcome::Failed), Action::Nothing);
    assert_eq!(resolve_purchase(&mut log, 0, CallOutcome::Succeeded), Action::Nothing);
    assert_eq!(log.get(0), after_failure);

    assert_eq!(resolve_refund(&mut log, 0, CallOutcome::Succeeded), Action::Nothing);
    let after_refund = log.get(0);
    assert_eq!(resolve_refund(&mut log, 0, CallOutcome::Succeeded), Action::Nothing);
    assert_eq!(resolve_refund(&mut log, 0, CallOutcome::Failed), Action::Nothing);
    assert_eq!(log.get(0), after_refund);
    assert_eq!(after_refund.unwrap().failure, Some(FailureKind::Refunded));
}

#[test]
fn answer_after_settlement_does_nothing() {
    let (mut store, mut log) = market();
    offer(&mut store, &mut log, bid("buyer", 1000), 50).unwrap();
    after_ft_transfer(&mut log, 0, CallOutcome::Succeeded, &vec![]);
    resolve_purchase(&mut log, 0, CallOutcome::Succeeded);
    assert_eq!(resolve_purchase(&mut log, 0, CallOutcome::Succeeded), Action::Nothing);
    assert_eq!(resolve_purchase(&mut log, 0, CallOutcome::Failed), Action::Nothing);
    assert_eq!(after_ft_transfer(&mut log, 0, CallOutcome::Succeeded, &vec![]), Action::Nothing);
    assert_eq!(resolve_refund(&mut log, 0, CallOutcome::Succeeded), Action::Nothing);
    assert_eq!(log.len(), 0);
}

#[test]
fn answer_out_of_turn_does_nothing() {
    let (mut store, mut log) = market();
    offer(&mut store, &mut log, bid("buyer", 1000), 50).unwrap();
    let waiting = log.get(0);
    assert_eq!(resolve_purchase(&mut log, 0, CallOutcome::Succeeded), Action::Nothing);
    assert_eq!(resolve_refund(&mut log, 0, CallOutcome::Succeeded), Action::Nothing);
    assert_eq!(after_ft_transfer(&mut log, 7, CallOutcome::Succeeded, &vec![]), Action::Nothing);
    assert_eq!(log.get(0), waiting);
    assert_eq!(log.len(), 1);
}

#[test]
fn delivery_takes_any_answer() {
    let (mut store, mut log) = market();
    offer(&mut store, &mut log, bid("buyer", 1000), 50).unwrap();
    let paid = Callback { call: call(0, CallKind::Payment), outcome: CallOutcome::Succeeded };
    assert!(matches!(log.deliver(paid, &vec![]), Action::RequestAssetTransfer { .. }));
    assert_eq!(log.deliver(paid, &vec![]), Action::Nothing);
    let lost = Callback { call: call(0, CallKind::AssetTransfer), outcome: CallOutcome::TimedOut };
    assert_eq!(log.deliver(lost, &vec![]), refund_of_the_bid());
    let back = Callback { call: call(0, CallKind::Refund), outcome: CallOutcome::Succeeded };
    assert_eq!(log.deliver(back, &vec![]), Action::Nothing);
    assert_eq!(log.get(0).unwrap().failure, Some(FailureKind::Refunded));
}

#[test]
fn pending_sales_are_listed_by_age() {
    let mut store = ListingStore::new();
    let mut log = CompensationLog::new();
    for n in 0..4u64 {
        let mut item = listing();
        item.asset_id = format!("token-{}", n);
        store.insert(item).unwrap();
        let mut b = bid("buyer", 1000);
        b.asset_id = format!("token-{}", n);
        offer(&mut store, &mut log, b, 10 * n).unwrap();
    }
    assert_eq!(log.list_pending(0), Vec::<u64>::new());
    assert_eq!(log.list_pending(1), vec![0]);
    assert_eq!(log.list_pending(20), vec![0, 1]);
    assert_eq!(log.list_pending(u64::MAX), vec![0, 1, 2, 3]);
    after_ft_transfer(&mut log, 1, CallOutcome::Failed, &vec![]);
    after_ft_transfer(&mut log, 2, CallOutcome::Succeeded, &vec![]);
    assert_eq!(log.list_pending(u64::MAX), vec![0, 2, 3]);
    resolve_purchase(&mut log, 2, CallOutcome::Failed);
    assert_eq!(log.list_pending(u64::MAX), vec![0, 2, 3]);
    resolve_refund(&mut log, 2, CallOutcome::Failed);
    assert_eq!(log.list_pending(u64::MAX), vec![0, 3]);
    after_ft_transfer(&mut log, 0, CallOutcome::Succeeded, &vec![]);
    resolve_purchase(&mut log, 0, CallOutcome::Succeeded);
    assert_eq!(log.list_pending(u64::MAX), vec![3]);
    assert_eq!(log.len(), 3);
}

#[test]
fn record_takes_its_steps_one_by_one() {
    let fresh = SaleAttempt::initiated(4, listing(), "buyer".to_string(), 1200, 9);
    assert_eq!(fresh.phase, Phase::Initiated);
    assert!(fresh.is_well_formed());
    assert!(!fresh.awaits(call(4, CallKind::Payment)));
    let (asked, action) = fresh.request_payment();
    assert_eq!(asked.phase, Phase::PaymentRequested);
    assert_eq!(
        action,
        Action::RequestPayment {
            call: call(4, CallKind::Payment),
            payer_id: "buyer".to_string(),
            amount_minor: 1200,
        }
    );
    assert!(asked.awaits(call(4, CallKind::Payment)));
    assert!(!asked.awaits(call(4, CallKind::Refund)));
    assert!(!asked.awaits(call(5, CallKind::Payment)));
    let (same, action) = asked.request_asset_transfer(&vec![]);
    assert_eq!(same.phase, Phase::PaymentRequested);
    assert_eq!(action, Action::Nothing);
    let paid = same.confirm_payment(CallOutcome::Succeeded);
    assert_eq!(paid.phase, Phase::PaymentConfirmed);
    assert!(!paid.awaits(call(4, CallKind::Payment)));
    let (sent, action) = paid.request_asset_transfer(&vec![royalty("R1", 5000)]);
    assert_eq!(sent.phase, Phase::AssetTransferRequested);
    assert!(matches!(action, Action::RequestAssetTransfer { .. }));
    assert_eq!(sent.payout, Some(Payout { royalties: vec![leg("R1", 600)], seller: leg("seller", 600) }));
    assert!(sent.is_well_formed());
    let (settled, action) = sent.resolve_transfer(CallOutcome::Succeeded);
    assert_eq!(settled.phase, Phase::Settled);
    assert_eq!(action, Action::Nothing);
    assert!(settled.phase.terminal());
    assert!(settled.payout.as_ref().unwrap().hands_out(1200));
    let unchanged = settled.duplicate().resolve_refund(CallOutcome::Succeeded);
    assert_eq!(unchanged, settled);
    let (unchanged, action) = settled.duplicate().step(
        Callback { call: call(4, CallKind::AssetTransfer), outcome: CallOutcome::Failed },
        &vec![],
    );
    assert_eq!(unchanged, settled);
    assert_eq!(action, Action::Nothing);
}

#[test]
fn ill_formed_records_are_told_apart() {
    assert!(record(Phase::PaymentRequested, None, None).is_well_formed());
    assert!(record(Phase::Failed, None, Some(FailureKind::PaymentFailed)).is_well_formed());
    assert!(!record(Phase::Failed, None, None).is_well_formed());
    assert!(!record(Phase::PaymentRequested, None, Some(FailureKind::Refunded)).is_well_formed());
    assert!(!record(Phase::Settled, None, None).is_well_formed());
    assert!(!record(Phase::AssetTransferRequested, None, None).is_well_formed());
    let exact = Payout { royalties: vec![leg("R1", 100)], seller: leg("seller", 900) };
    assert!(record(Phase::Settled, Some(exact.duplicate()), None).is_well_formed());
    assert!(!record(Phase::PaymentRequested, Some(exact.duplicate()), None).is_well_formed());
    assert!(!record(Phase::Failed, Some(exact), Some(FailureKind::PaymentFailed)).is_well_formed());
    let short = Payout { royalties: vec![leg("R1", 100)], seller: leg("seller", 899) };
    assert!(!record(Phase::Settled, Some(short), None).is_well_formed());
    let huge = Payout { royalties: vec![leg("R1", u128::MAX)], seller: leg("seller", 1001) };
    assert!(!record(Phase::Settled, Some(huge), None).is_well_formed());
    let stranger = Payout { royalties: vec![], seller: leg("someone", 1000) };
    assert!(!record(Phase::Settled, Some(stranger), None).is_well_formed());
    let mut own = record(Phase::PaymentRequested, None, None);
    own.buyer_id = "seller".to_string();
    assert!(!own.is_well_formed());
    let mut cheap = record(Phase::PaymentRequested, None, None);
    cheap.agreed_price_minor = 999;
    assert!(!cheap.is_well_formed());
    let mut free = record(Phase::PaymentRequested, None, None);
    free.listing.price_minor = 0;
    assert!(!free.is_well_formed());
}

#[test]
fn log_is_rebuilt_from_its_records() {
    let (mut store, mut log) = market();
    offer(&mut store, &mut log, bid("buyer", 1000), 50).unwrap();
    after_ft_transfer(&mut log, 0, CallOutcome::Succeeded, &vec![]);
    let mut rebuilt = CompensationLog::restore(log.records(), log.next_saga_id()).unwrap();
    assert_eq!(rebuilt.records(), log.records());
    assert_eq!(rebuilt.next_saga_id(), 1);
    assert_eq!(resolve_purchase(&mut rebuilt, 0, CallOutcome::Failed), refund_of_the_bid());
}

#[test]
fn log_is_not_rebuilt_from_records_that_are_none() {
    let waiting = || record(Phase::PaymentRequested, None, None);
    assert!(CompensationLog::restore(vec![waiting()], 1).is_some());
    assert!(CompensationLog::restore(vec![waiting()], 0).is_none());
    assert!(CompensationLog::restore(vec![waiting(), waiting()], 5).is_none());
    let mut later = waiting();
    later.saga_id = 3;
    assert!(CompensationLog::restore(vec![waiting(), later.duplicate()], 5).is_some());
    assert!(CompensationLog::restore(vec![later, waiting()], 5).is_none());
    assert!(CompensationLog::restore(vec![record(Phase::Initiated, None, None)], 5).is_none());
    assert!(CompensationLog::restore(vec![record(Phase::PaymentConfirmed, None, None)], 5).is_none());
    let exact = Payout { royalties: vec![], seller: leg("seller", 1000) };
    assert!(CompensationLog::restore(vec![record(Phase::Settled, Some(exact), None)], 5).is_none());
    assert!(CompensationLog::restore(vec![record(Phase::Failed, None, None)], 5).is_none());
}

#[test]
fn sale_that_waited_too_long_for_the_payment_fails() {
    let (mut store, mut log) = market();
    offer(&mut store, &mut log, bid("buyer", 1000), 50).unwrap();
    assert_eq!(log.time_out(0), Action::Nothing);
    assert_eq!(log.get(0), Some(record(Phase::Failed, None, Some(FailureKind::PaymentFailed))));
    assert_eq!(after_ft_transfer(&mut log, 0, CallOutcome::Succeeded, &vec![]), Action::Nothing);
    assert_eq!(log.get(0).unwrap().phase, Phase::Failed);
}

#[test]
fn sale_that_waited_too_long_for_the_transfer_is_refunded() {
    let (mut store, mut log) = market();
    offer(&mut store, &mut log, bid("buyer", 1000), 50).unwrap();
    after_ft_transfer(&mut log, 0, CallOutcome::Succeeded, &vec![]);
    assert_eq!(log.time_out(0), refund_of_the_bid());
    assert_eq!(log.get(0).unwrap().phase, Phase::PaymentRefundRequested);
    assert_eq!(resolve_purchase(&mut log, 0, CallOutcome::Succeeded), Action::Nothing);
    assert_eq!(log.get(0).unwrap().phase, Phase::PaymentRefundRequested);
}

#[test]
fn sale_that_waited_too_long_for_the_refund_stays_on_record() {
    let (mut store, mut log) = market();
    offer(&mut store, &mut log, bid("buyer", 1000), 50).unwrap();
    after_ft_transfer(&mut log, 0, CallOutcome::Succeeded, &vec![]);
    resolve_purchase(&mut log, 0, CallOutcome::Failed);
    assert_eq!(log.time_out(0), Action::Nothing);
    let kept = log.get(0).unwrap();
    assert_eq!(kept.phase, Phase::Failed);
    assert_eq!(kept.failure, Some(FailureKind::RefundFailed));
    assert_eq!(log.time_out(0), Action::Nothing);
    assert_eq!(log.get(0), Some(kept));
}

#[test]
fn time_out_of_an_unknown_sale_does_nothing() {
    let (mut store, mut log) = market();
    offer(&mut store, &mut log, bid("buyer", 1000), 50).unwrap();
    assert_eq!(log.time_out(3), Action::Nothing);
    assert_eq!(log.get(0), Some(record(Phase::PaymentRequested, None, None)));
    assert_eq!(log.len(), 1);
}

#[test]
fn record_tells_what_is_pending() {
    let (mut store, mut log) = market();
    let asked = offer(&mut store, &mut log, bid("buyer", 1000), 50).unwrap();
    assert_eq!(log.get(0).unwrap().pending_action(), asked);
    let asked = after_ft_transfer(&mut log, 0, CallOutcome::Succeeded, &vec![royalty("R1", 1000)]);
    assert!(matches!(asked, Action::RequestAssetTransfer { .. }));
    assert_eq!(log.get(0).unwrap().pending_action(), asked);
    let asked = resolve_purchase(&mut log, 0, CallOutcome::Failed);
    assert_eq!(asked, refund_of_the_bid());
    assert_eq!(log.get(0).unwrap().pending_action(), asked);
    resolve_refund(&mut log, 0, CallOutcome::Succeeded);
    assert_eq!(log.get(0).unwrap().pending_action(), Action::Nothing);
}
