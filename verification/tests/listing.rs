use marketplace::listing::{Listing, ListingError, ListingStore};

fn listing(collection: &str, asset: &str, owner: &str, price_minor: u128) -> Listing {
    Listing {
        collection_id: collection.to_string(),
        asset_id: asset.to_string(),
        owner_id: owner.to_string(),
        price_minor,
        approval_token: 3,
    }
}

#[test]
fn new_store_is_empty() {
    let store = ListingStore::new();
    assert_eq!(store.len(), 0);
    assert_eq!(store.get(&"c".to_string(), &"a".to_string()), None);
    assert_eq!(store.listings(), vec![]);
}

#[test]
fn listing_is_found_under_its_key() {
    let mut store = ListingStore::new();
    assert_eq!(store.insert(listing("c", "a", "seller", 1000)), Ok(()));
    assert_eq!(store.insert(listing("c", "b", "seller", 2000)), Ok(()));
    assert_eq!(store.insert(listing("d", "a", "other", 3000)), Ok(()));
    assert_eq!(store.len(), 3);
    assert_eq!(store.get(&"c".to_string(), &"a".to_string()), Some(listing("c", "a", "seller", 1000)));
    assert_eq!(store.get(&"c".to_string(), &"b".to_string()), Some(listing("c", "b", "seller", 2000)));
    assert_eq!(store.get(&"d".to_string(), &"a".to_string()), Some(listing("d", "a", "other", 3000)));
    assert_eq!(store.get(&"d".to_string(), &"b".to_string()), None);
    assert_eq!(store.get(&"ca".to_string(), &"".to_string()), None);
    assert_eq!(store.len(), 3);
}

#[test]
fn asset_is_listed_once() {
    let mut store = ListingStore::new();
    store.insert(listing("c", "a", "seller", 1000)).unwrap();
    assert_eq!(store.insert(listing("c", "a", "other", 5)), Err(ListingError::DuplicateListing));
    assert_eq!(store.get(&"c".to_string(), &"a".to_string()), Some(listing("c", "a", "seller", 1000)));
    assert_eq!(store.len(), 1);
}

#[test]
fn listing_needs_a_price() {
    let mut store = ListingStore::new();
    assert_eq!(store.insert(listing("c", "a", "seller", 0)), Err(ListingError::ZeroAmount));
    store.insert(listing("c", "a", "seller", 1)).unwrap();
    assert_eq!(store.insert(listing("c", "a", "seller", 0)), Err(ListingError::ZeroAmount));
    assert_eq!(store.len(), 1);
}

#[test]
fn removed_listing_is_handed_over_once() {
    let mut store = ListingStore::new();
    store.insert(listing("c", "a", "seller", 1000)).unwrap();
    store.insert(listing("c", "b", "seller", 2000)).unwrap();
    store.insert(listing("c", "d", "seller", 3000)).unwrap();
    assert_eq!(
        store.remove_if_exists(&"c".to_string(), &"b".to_string()),
        Some(listing("c", "b", "seller", 2000))
    );
    assert_eq!(store.remove_if_exists(&"c".to_string(), &"b".to_string()), None);
    assert_eq!(store.get(&"c".to_string(), &"b".to_string()), None);
    assert_eq!(store.len(), 2);
    assert_eq!(store.listings(), vec![listing("c", "a", "seller", 1000), listing("c", "d", "seller", 3000)]);
}

#[test]
fn removing_what_is_not_listed_changes_nothing() {
    let mut store = ListingStore::new();
    store.insert(listing("c", "a", "seller", 1000)).unwrap();
    assert_eq!(store.remove_if_exists(&"c".to_string(), &"x".to_string()), None);
    assert_eq!(store.listings(), vec![listing("c", "a", "seller", 1000)]);
}

#[test]
fn removed_asset_can_be_listed_again() {
    let mut store = ListingStore::new();
    store.insert(listing("c", "a", "seller", 1000)).unwrap();
    store.remove_if_exists(&"c".to_string(), &"a".to_string()).unwrap();
    assert_eq!(store.insert(listing("c", "a", "buyer", 1500)), Ok(()));
    assert_eq!(store.get(&"c".to_string(), &"a".to_string()), Some(listing("c", "a", "buyer", 1500)));
}

#[test]
fn listing_copy_is_equal() {
    assert_eq!(listing("c", "a", "seller", 1000).duplicate(), listing("c", "a", "seller", 1000));
}
