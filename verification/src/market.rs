use crate::compensation::{CompensationLog, CompensationLogView};
use crate::listing::{listing_key, listings_well_formed, ListingKey, ListingStore, ListingView};
use crate::payout::{share_views, RoyaltyShare};
use crate::saga::{Action, ActionView, CallId, CallKind, CallOutcome, Callback};
use vstd::prelude::*;

verus! {

/// Why an offer was turned down. Nothing has changed when one of these comes
/// back.
#[derive(Clone, Copy, Debug, PartialEq, Eq)]
pub enum OfferError {
    /// The bid is zero.
    ZeroAmount,
    /// The asset is not listed: it was sold or taken off the market.
    ListingNotFound,
    /// The buyer is the owner of the listing.
    SelfTradeRejected,
    /// The bid is below the listed price.
    BidTooLow,
    /// No id is left for another sale.
    SagaIdsExhausted,
}

/// An offer to buy a listed asset.
#[derive(Debug, PartialEq, Eq)]
pub struct Offer {
    pub collection_id: String,
    pub asset_id: String,
    pub buyer_id: String,
    pub bid_amount_minor: u128,
}

/// [`Offer`] as plain values.
pub struct OfferView {
    pub collection_id: Seq<char>,
    pub asset_id: Seq<char>,
    pub buyer_id: Seq<char>,
    pub bid_amount_minor: nat,
}

impl View for Offer {
    type V = OfferView;

    open spec fn view(&self) -> OfferView {
        OfferView {
            collection_id: self.collection_id@,
            asset_id: self.asset_id@,
            buyer_id: self.buyer_id@,
            bid_amount_minor: self.bid_amount_minor as nat,
        }
    }
}

impl OfferView {
    /// The key of the listing that the offer is for.
    pub open spec fn key(self) -> ListingKey {
        listing_key(self.collection_id, self.asset_id)
    }
}

/// The market as plain values: the active listings and the log of the sales.
pub struct MarketView {
    pub listings: Map<ListingKey, ListingView>,
    pub log: CompensationLogView,
}

impl MarketView {
    /// The listings and the log are well formed.
    pub open spec fn well_formed(self) -> bool {
        listings_well_formed(self.listings) && self.log.well_formed()
    }

    /// Why a purchase is turned down, if it is. The checks are made in this
    /// order: the price offered is above zero, the asset is listed, the buyer
    /// is not its owner, the price offered covers the listed price, and an id
    /// is left for the sale.
    pub open spec fn purchase_error(self, key: ListingKey, buyer_id: Seq<char>,
        price_minor: nat) -> Option<
        OfferError,
    > {
        if price_minor == 0 {
            Some(OfferError::ZeroAmount)
        } else if !self.listings.dom().contains(key) {
            Some(OfferError::ListingNotFound)
        } else if self.listings[key].owner_id == buyer_id {
            Some(OfferError::SelfTradeRejected)
        } else if price_minor < self.listings[key].price_minor {
            Some(OfferError::BidTooLow)
        } else if self.log.next_saga_id == u64::MAX {
            Some(OfferError::SagaIdsExhausted)
        } else {
            None
        }
    }

    /// The market after an accepted purchase, and the payment that is asked
    /// for: the listing is gone, and the log holds the record of the sale,
    /// which waits for the payment of the price offered.
    pub open spec fn purchase(self, key: ListingKey, buyer_id: Seq<char>, price_minor: nat,
        now: u64) -> (
        MarketView,
        ActionView,
    ) {
        let opened = self.log.open_sale(self.listings[key], buyer_id, price_minor, now);
        (MarketView { listings: self.listings.remove(key), log: opened.0 }, opened.1)
    }

    /// What becomes of an offer: it is turned down and nothing changes, or it
    /// is accepted at the price bid.
    pub open spec fn offer(self, offer: OfferView, now: u64) -> Result<(MarketView, ActionView),
        OfferError> {
        match self.purchase_error(offer.key(), offer.buyer_id, offer.bid_amount_minor) {
            Some(e) => Err(e),
            None => Ok(self.purchase(offer.key(), offer.buyer_id, offer.bid_amount_minor, now)),
        }
    }
}

/// The answer to the call of the given kind of the sale with the given id.
pub open spec fn answer(saga_id: u64, kind: CallKind, outcome: CallOutcome) -> Callback {
    Callback { call: CallId { saga_id, kind }, outcome }
}

/// Accepts or turns down the purchase of a listed asset by `buyer_id` at
/// `price_minor`. The purchase is accepted when the price is above zero, the
/// asset is listed, the buyer is not its owner, the price covers the listed
/// price, and an id is left for the sale. The listing is then taken out of the
/// store before anything else is asked for, the sale is recorded in the log,
/// and the payment by the buyer is asked for. Where the purchase is turned
/// down, neither the store nor the log changes.
pub fn process_purchase(
    store: &mut ListingStore,
    log: &mut CompensationLog,
    collection_id: String,
    asset_id: String,
    price_minor: u128,
    buyer_id: String,
    now: u64,
) -> (purchased: Result<Action, OfferError>)
    ensures
        (MarketView { listings: old(store)@, log: old(log)@ }).well_formed(),
        (MarketView { listings: final(store)@, log: final(log)@ }).well_formed(),
        match purchased {
            Ok(action) => {
                &&& (MarketView { listings: old(store)@, log: old(log)@ }).purchase_error(
                    listing_key(collection_id@, asset_id@),
                    buyer_id@,
                    price_minor as nat,
                ) is None
                &&& (MarketView { listings: final(store)@, log: final(log)@ }, action@) == (MarketView {
                    listings: old(store)@,
                    log: old(log)@,
                }).purchase(listing_key(collection_id@, asset_id@), buyer_id@, price_minor as nat, now)
            },
            Err(e) => {
                &&& (MarketView { listings: old(store)@, log: old(log)@ }).purchase_error(
                    listing_key(collection_id@, asset_id@),
                    buyer_id@,
                    price_minor as nat,
                ) == Some(e)
                &&& final(store)@ == old(store)@
                &&& final(log)@ == old(log)@
            },
        },
{
    let next_saga_id: u64 = log.next_saga_id();
    let listed = store.get(&collection_id, &asset_id);
    if price_minor == 0 {
        return Err(OfferError::ZeroAmount);
    }
    match listed {
        None => Err(OfferError::ListingNotFound),
        Some(listing) => {
            if listing.owner_id == buyer_id {
                return Err(OfferError::SelfTradeRejected);
            }
            if price_minor < listing.price_minor {
                return Err(OfferError::BidTooLow);
            }
            if next_saga_id == u64::MAX {
                return Err(OfferError::SagaIdsExhausted);
            }
            match store.remove_if_exists(&collection_id, &asset_id) {
                Some(removed) => Ok(log.open_sale(removed, buyer_id, price_minor, now)),
                None => Err(OfferError::ListingNotFound),
            }
        },
    }
}

/// Takes an offer on a listed asset: see [`process_purchase`], with the
/// offer's buyer and the bid as the price.
pub fn offer(store: &mut ListingStore, log: &mut CompensationLog, bid: Offer,
    now: u64) -> (taken: Result<
    Action,
    OfferError,
>)
    ensures
        (MarketView { listings: old(store)@, log: old(log)@ }).well_formed(),
        (MarketView { listings: final(store)@, log: final(log)@ }).well_formed(),
        match taken {
            Ok(action) => (MarketView { listings: old(store)@, log: old(log)@ }).offer(bid@,
                now) == Ok::<
                (MarketView, ActionView),
                OfferError,
            >((MarketView { listings: final(store)@, log: final(log)@ }, action@)),
            Err(e) => {
                &&& (MarketView { listings: old(store)@, log: old(log)@ }).offer(bid@, now) == Err::<
                    (MarketView, ActionView),
                    OfferError,
                >(e)
                &&& final(store)@ == old(store)@
                &&& final(log)@ == old(log)@
            },
        },
{
    process_purchase(
        store,
        log,
        bid.collection_id,
        bid.asset_id,
        bid.bid_amount_minor,
        bid.buyer_id,
        now,
    )
}

/// Delivers the answer to the payment of the sale `saga_id`. Where the
/// payment was made, the payout is computed from `royalty_spec` and the
/// transfer of the asset asked for, or, where no payout can be computed, the
/// refund; where it was not made, the sale has failed with no money moved.
/// An answer that the sale does not wait for does nothing.
pub fn after_ft_transfer(
    log: &mut CompensationLog,
    saga_id: u64,
    outcome: CallOutcome,
    royalty_spec: &Vec<RoyaltyShare>,
) -> (action: Action)
    ensures
        (final(log)@, action@) == old(log)@.deliver(
            answer(saga_id, CallKind::Payment, outcome),
            share_views(royalty_spec@),
        ),
        old(log)@.well_formed(),
        final(log)@.well_formed(),
{
    log.deliver(Callback { call: CallId { saga_id, kind: CallKind::Payment }, outcome }, royalty_spec)
}

/// Delivers the answer to the transfer of the asset of the sale `saga_id`:
/// the sale is settled and its record released, or the refund is asked for.
/// An answer that the sale does not wait for does nothing.
pub fn resolve_purchase(log: &mut CompensationLog, saga_id: u64,
    outcome: CallOutcome) -> (action: Action)
    ensures
        (final(log)@, action@) == old(log)@.deliver(
            answer(saga_id, CallKind::AssetTransfer, outcome),
            Seq::empty(),
        ),
        old(log)@.well_formed(),
        final(log)@.well_formed(),
{
    let no_royalties: Vec<RoyaltyShare> = Vec::new();
    assert(share_views(no_royalties@) =~= Seq::empty());
    log.deliver(Callback { call: CallId { saga_id, kind: CallKind::AssetTransfer }, outcome },
        &no_royalties)
}

/// Delivers the answer to the refund of the sale `saga_id`: the sale has
/// failed, and its record says for good whether the money was handed back.
/// An answer that the sale does not wait for does nothing.
pub fn resolve_refund(log: &mut CompensationLog, saga_id: u64, outcome: CallOutcome) -> (action: Action)
    ensures
        (final(log)@, action@)
            == old(log)@.deliver(answer(saga_id, CallKind::Refund, outcome), Seq::empty()),
        action@ == ActionView::Nothing,
        old(log)@.well_formed(),
        final(log)@.well_formed(),
{
    let no_royalties: Vec<RoyaltyShare> = Vec::new();
    assert(share_views(no_royalties@) =~= Seq::empty());
    log.deliver(Callback { call: CallId { saga_id, kind: CallKind::Refund }, outcome }, &no_royalties)
}

} // verus!
