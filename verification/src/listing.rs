use crate::assoc::{assoc, assoc_ok, lemma_assoc_at, lemma_assoc_len, lemma_assoc_push,
    lemma_assoc_remove};
use vstd::prelude::*;

verus! {

/// Why a listing was not stored.
#[derive(Clone, Copy, Debug, PartialEq, Eq)]
pub enum ListingError {
    /// The price is zero.
    ZeroAmount,
    /// The asset is listed already.
    DuplicateListing,
}

/// An asset offered for sale at a fixed minimum price.
#[derive(Debug, PartialEq, Eq)]
pub struct Listing {
    pub collection_id: String,
    pub asset_id: String,
    pub owner_id: String,
    pub price_minor: u128,
    pub approval_token: u64,
}

/// What identifies a listing: the collection and the asset in it.
pub struct ListingKey {
    pub collection_id: Seq<char>,
    pub asset_id: Seq<char>,
}

/// [`Listing`] as plain values.
pub struct ListingView {
    pub collection_id: Seq<char>,
    pub asset_id: Seq<char>,
    pub owner_id: Seq<char>,
    pub price_minor: nat,
    pub approval_token: u64,
}

impl ListingView {
    /// The key under which the listing is stored.
    pub open spec fn key(self) -> ListingKey {
        ListingKey { collection_id: self.collection_id, asset_id: self.asset_id }
    }
}

impl View for Listing {
    type V = ListingView;

    open spec fn view(&self) -> ListingView {
        ListingView {
            collection_id: self.collection_id@,
            asset_id: self.asset_id@,
            owner_id: self.owner_id@,
            price_minor: self.price_minor as nat,
            approval_token: self.approval_token,
        }
    }
}

impl Listing {
    /// A copy of the listing.
    pub fn duplicate(&self) -> (copy: Listing)
        ensures
            copy@ == self@,
    {
        Listing {
            collection_id: self.collection_id.clone(),
            asset_id: self.asset_id.clone(),
            owner_id: self.owner_id.clone(),
            price_minor: self.price_minor,
            approval_token: self.approval_token,
        }
    }
}

/// The key of the asset `asset_id` of the collection `collection_id`.
pub open spec fn listing_key(collection_id: Seq<char>, asset_id: Seq<char>) -> ListingKey {
    ListingKey { collection_id, asset_id }
}

/// What holds of the listings of every store: each is stored under its own
/// key, at a price above zero, and there are finitely many.
pub open spec fn listings_well_formed(listings: Map<ListingKey, ListingView>) -> bool {
    &&& listings.dom().finite()
    &&& forall|k: ListingKey| #[trigger]
        listings.dom().contains(k) ==> listings[k].key() == k && listings[k].price_minor > 0
}

spec fn listing_keys(listings: Seq<Listing>) -> Seq<ListingKey> {
    listings.map_values(|l: Listing| l@.key())
}

spec fn listing_views(listings: Seq<Listing>) -> Seq<ListingView> {
    listings.map_values(|l: Listing| l@)
}

spec fn listings_ok(listings: Seq<Listing>) -> bool {
    &&& assoc_ok(listing_keys(listings), listing_views(listings))
    &&& forall|i: int| 0 <= i < listings.len() ==> (#[trigger] listings[i]).price_minor > 0
}

proof fn lemma_listings_well_formed(listings: Seq<Listing>)
    requires
        listings_ok(listings),
    ensures
        listings_well_formed(assoc(listing_keys(listings), listing_views(listings))),
{
    let keys = listing_keys(listings);
    let vals = listing_views(listings);
    lemma_assoc_len(keys, vals);
    assert forall|k: ListingKey| #[trigger] assoc(keys, vals).dom().contains(k)
        implies assoc(keys, vals)[k].key()
        == k && assoc(keys, vals)[k].price_minor > 0 by {
        let i = crate::assoc::lemma_assoc_position(keys, vals, k);
        assert(listings[i].price_minor > 0);
    }
}

/// The active listings, at most one for each asset.
pub struct ListingStore {
    listings: Vec<Listing>,
}

impl View for ListingStore {
    type V = Map<ListingKey, ListingView>;

    closed spec fn view(&self) -> Map<ListingKey, ListingView> {
        assoc(listing_keys(self.listings@), listing_views(self.listings@))
    }
}

impl ListingStore {
    #[verifier::type_invariant]
    spec fn inv(&self) -> bool {
        listings_ok(self.listings@)
    }

    /// A store without listings.
    pub fn new() -> (store: ListingStore)
        ensures
            store@ == Map::<ListingKey, ListingView>::empty(),
            listings_well_formed(store@),
    {
        let store = ListingStore { listings: Vec::new() };
        assert(store@ =~= Map::<ListingKey, ListingView>::empty());
        store
    }

    fn position(&self, collection_id: &String, asset_id: &String) -> (slot: Option<usize>)
        ensures
            match slot {
                Some(i) => i < self.listings.len()
                    && listing_keys(self.listings@)[i as int] == listing_key(
                    collection_id@,
                    asset_id@,
                ),
                None => !listing_keys(self.listings@).contains(listing_key(collection_id@, asset_id@)),
            },
    {
        let mut i: usize = 0;
        while i < self.listings.len()
            invariant
                i <= self.listings.len(),
                forall|j: int|
                    0 <= j < i
                        ==> listing_keys(self.listings@)[j]
                        != listing_key(collection_id@, asset_id@),
            decreases self.listings.len() - i,
        {
            if self.listings[i].collection_id == *collection_id
                && self.listings[i].asset_id == *asset_id {
                return Some(i);
            }
            i += 1;
        }
        None
    }

    /// How many listings are active.
    pub fn len(&self) -> (count: usize)
        ensures
            count == self@.dom().len(),
            listings_well_formed(self@),
    {
        proof {
            use_type_invariant(self);
            lemma_assoc_len(listing_keys(self.listings@), listing_views(self.listings@));
            lemma_listings_well_formed(self.listings@);
        }
        self.listings.len()
    }

    /// Lists an asset. The price must be above zero and the asset must not be
    /// listed already; otherwise nothing changes.
    pub fn insert(&mut self, listing: Listing) -> (done: Result<(), ListingError>)
        ensures
            listings_well_formed(old(self)@),
            listings_well_formed(final(self)@),
            match done {
                Ok(_) => {
                    &&& listing.price_minor > 0
                    &&& !old(self)@.dom().contains(listing@.key())
                    &&& final(self)@ == old(self)@.insert(listing@.key(), listing@)
                },
                Err(e) => {
                    &&& final(self)@ == old(self)@
                    &&& e == (if listing.price_minor == 0 {
                        ListingError::ZeroAmount
                    } else {
                        ListingError::DuplicateListing
                    })
                    &&& listing.price_minor == 0 || old(self)@.dom().contains(listing@.key())
                },
            },
    {
        proof {
            use_type_invariant(&*self);
            lemma_listings_well_formed(self.listings@);
        }
        if listing.price_minor == 0 {
            return Err(ListingError::ZeroAmount);
        }
        match self.position(&listing.collection_id, &listing.asset_id) {
            Some(i) => {
                proof {
                    lemma_assoc_at(listing_keys(self.listings@), listing_views(self.listings@),
                        i as int);
                }
                Err(ListingError::DuplicateListing)
            },
            None => {
                let ghost before = self.listings@;
                let ghost added = listing@;
                let mut listings: Vec<Listing> = Vec::new();
                core::mem::swap(&mut self.listings, &mut listings);
                listings.push(listing);
                proof {
                    assert(listing_keys(listings@) =~= listing_keys(before).push(added.key()));
                    assert(listing_views(listings@) =~= listing_views(before).push(added));
                    lemma_assoc_push(listing_keys(before), listing_views(before), added.key(), added);
                    lemma_listings_well_formed(listings@);
                }
                core::mem::swap(&mut self.listings, &mut listings);
                Ok(())
            },
        }
    }

    /// The listing of the asset, if it is listed. The store does not change.
    pub fn get(&self, collection_id: &String, asset_id: &String) -> (found: Option<Listing>)
        ensures
            listings_well_formed(self@),
            match found {
                Some(listing) => self@.dom().contains(listing_key(collection_id@, asset_id@)) && listing@
                    == self@[listing_key(collection_id@, asset_id@)],
                None => !self@.dom().contains(listing_key(collection_id@, asset_id@)),
            },
    {
        proof {
            use_type_invariant(self);
            lemma_listings_well_formed(self.listings@);
        }
        match self.position(collection_id, asset_id) {
            Some(i) => {
                proof {
                    lemma_assoc_at(listing_keys(self.listings@), listing_views(self.listings@),
                        i as int);
                }
                Some(self.listings[i].duplicate())
            },
            None => None,
        }
    }

    /// Takes the listing of the asset out of the store and hands it over, if
    /// the asset is listed. Afterwards the asset is not listed, so of any
    /// number of callers at most one is handed the listing.
    pub fn remove_if_exists(&mut self, collection_id: &String, asset_id: &String) -> (removed: Option<
        Listing,
    >)
        ensures
            listings_well_formed(old(self)@),
            listings_well_formed(final(self)@),
            !final(self)@.dom().contains(listing_key(collection_id@, asset_id@)),
            match removed {
                Some(listing) => {
                    &&& old(self)@.dom().contains(listing_key(collection_id@, asset_id@))
                    &&& listing@ == old(self)@[listing_key(collection_id@, asset_id@)]
                    &&& final(self)@ == old(self)@.remove(listing_key(collection_id@, asset_id@))
                },
                None => {
                    &&& !old(self)@.dom().contains(listing_key(collection_id@, asset_id@))
                    &&& final(self)@ == old(self)@
                },
            },
    {
        proof {
            use_type_invariant(&*self);
            lemma_listings_well_formed(self.listings@);
        }
        match self.position(collection_id, asset_id) {
            Some(i) => {
                let ghost before = self.listings@;
                let mut listings: Vec<Listing> = Vec::new();
                core::mem::swap(&mut self.listings, &mut listings);
                let listing = listings.remove(i);
                proof {
                    lemma_assoc_at(listing_keys(before), listing_views(before), i as int);
                    assert(listing_keys(listings@) =~= listing_keys(before).remove(i as int));
                    assert(listing_views(listings@) =~= listing_views(before).remove(i as int));
                    lemma_assoc_remove(listing_keys(before), listing_views(before), i as int);
                    assert forall|j: int| 0 <= j < listings@.len()
                        implies (#[trigger] listings@[j]).price_minor
                        > 0 by {
                        if j < i {
                            assert(listings@[j] == before[j]);
                        } else {
                            assert(listings@[j] == before[j + 1]);
                        }
                    }
                    lemma_listings_well_formed(listings@);
                }
                core::mem::swap(&mut self.listings, &mut listings);
                Some(listing)
            },
            None => None,
        }
    }

    /// A copy of every listing, each once.
    pub fn listings(&self) -> (all: Vec<Listing>)
        ensures
            all.len() == self@.dom().len(),
            forall|i: int|
                0 <= i < all.len()
                    ==> self@.dom().contains((#[trigger] all[i])@.key()) && self@[all[i]@.key()]
                    == all[i]@,
            forall|i: int, j: int| 0 <= i < j < all.len() ==> all[i]@.key() != all[j]@.key(),
    {
        proof {
            use_type_invariant(self);
            lemma_assoc_len(listing_keys(self.listings@), listing_views(self.listings@));
        }
        let mut all: Vec<Listing> = Vec::new();
        let mut i: usize = 0;
        while i < self.listings.len()
            invariant
                i <= self.listings.len(),
                all.len() == i,
                forall|j: int| 0 <= j < i ==> (#[trigger] all[j])@ == self.listings[j]@,
            decreases self.listings.len() - i,
        {
            all.push(self.listings[i].duplicate());
            i += 1;
        }
        proof {
            assert forall|k: int| 0 <= k < all.len()
                implies self@.dom().contains((#[trigger] all[k])@.key())
                && self@[all[k]@.key()] == all[k]@ by {
                lemma_assoc_at(listing_keys(self.listings@), listing_views(self.listings@), k);
            }
            assert forall|a: int, b: int| 0 <= a < b < all.len()
                implies all[a]@.key() != all[b]@.key() by {
                assert(listing_keys(self.listings@)[a] != listing_keys(self.listings@)[b]);
            }
        }
        all
    }
}

} // verus!
