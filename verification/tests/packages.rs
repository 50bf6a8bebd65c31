use marketplace::packages::{
    resolve_transfer_input, BuyOutcome, Contract, FtTransferCall, PackageError, Refund, ResolveTransferArgs,
    StorageDepositCall, FT_TRANSFER_DEPOSIT, GAS_FOR_FT_TRANSFER, GAS_FOR_RESOLVE_TRANSFER,
};

fn setup_contract() -> Contract {
    Contract::new(
        "alice.testnet".to_string(),
        "token.testnet".to_string(),
        1000000000000000000000000,
        1629055854000000000,
        31556952000000000,
        0,
    )
    .unwrap()
}

#[test]
fn new() {
    let contract = setup_contract();
    assert_eq!(contract.owner(), "alice.testnet");
    assert_eq!(contract.token(), "token.testnet");
    assert_eq!(contract.amount(), 1000000000000000000000000);
    assert_eq!(contract.start(), 1629055854000000000);
    assert_eq!(contract.duration(), 31556952000000000);
    assert!(contract.is_active());
}

#[test]
fn owner() {
    let contract = setup_contract();
    assert_eq!(contract.owner(), "alice.testnet");
}

#[test]
fn amount() {
    let contract = setup_contract();
    assert_eq!(contract.amount(), 1000000000000000000000000);
}

#[test]
fn token() {
    let contract = setup_contract();
    assert_eq!(contract.token(), "token.testnet");
}

#[test]
fn amount_claimed() {
    let contract = setup_contract();
    assert_eq!(contract.amount_claimed(), 0);
}

#[test]
fn new_rejects_zero_duration() {
    let made = Contract::new("a".to_string(), "t".to_string(), 1, 5, 0, 0);
    assert_eq!(made.err(), Some(PackageError::DurationIsZero));
}

#[test]
fn new_rejects_end_beyond_64_bits() {
    let made = Contract::new("a".to_string(), "t".to_string(), 1, u64::MAX, 1, 0);
    assert_eq!(made.err(), Some(PackageError::IntegerOverflow));
}

#[test]
fn new_rejects_sale_that_is_over() {
    let made = Contract::new("a".to_string(), "t".to_string(), 1, 5, 10, 15);
    assert_eq!(made.err(), Some(PackageError::StartAndDurationInThePast));
    let made = Contract::new("a".to_string(), "t".to_string(), 1, 5, 10, 14);
    assert!(made.is_ok());
}

#[test]
fn new_checks_duration_before_the_clock() {
    let made = Contract::new("a".to_string(), "t".to_string(), 1, 0, 0, 100);
    assert_eq!(made.err(), Some(PackageError::DurationIsZero));
}

#[test]
fn deactivate_is_for_the_owner_only() {
    let mut contract = setup_contract();
    assert_eq!(contract.deactivate(&"carol.testnet".to_string()), Err(PackageError::NotOwner));
    assert!(contract.is_active());
    assert_eq!(contract.deactivate(&"alice.testnet".to_string()), Ok(()));
    assert!(!contract.is_active());
    assert_eq!(contract.amount(), 1000000000000000000000000);
}

#[test]
fn transfer_describes_the_call() {
    let contract = setup_contract();
    assert_eq!(
        contract.transfer("bob.testnet".to_string(), 77),
        FtTransferCall {
            token: "token.testnet".to_string(),
            receiver_id: "bob.testnet".to_string(),
            amount: 77,
            memo: None,
            attached_deposit: 1,
            gas: 100_000_000_000,
        }
    );
    assert_eq!(FT_TRANSFER_DEPOSIT, 1);
    assert_eq!(GAS_FOR_FT_TRANSFER, 100_000_000_000);
    assert_eq!(GAS_FOR_RESOLVE_TRANSFER, 2_000_000_000_000);
}

#[test]
fn storage_deposit_passes_the_deposit_on() {
    let contract = setup_contract();
    assert_eq!(
        contract.storage_deposit("bob.testnet".to_string(), 1250),
        StorageDepositCall {
            token: "token.testnet".to_string(),
            account_id: "bob.testnet".to_string(),
            attached_deposit: 1250,
        }
    );
}

#[test]
fn buy_one_package_of_each_kind() {
    let near: u128 = 1_000_000_000_000_000_000_000_000;
    let unit: u128 = 100_000_000;
    let table: [(u8, u128, u128); 3] =
        [(1, 100 * near, 1000 * unit), (2, 500 * near, 7500 * unit), (3, 1500 * near, 30000 * unit)];
    for (package, price, tokens) in table {
        let mut contract = setup_contract();
        let outcome = contract.buy(package, 1, "bob.testnet".to_string(), price).unwrap();
        assert_eq!(
            outcome,
            BuyOutcome {
                transfer: FtTransferCall {
                    token: "token.testnet".to_string(),
                    receiver_id: "bob.testnet".to_string(),
                    amount: tokens,
                    memo: None,
                    attached_deposit: 1,
                    gas: 100_000_000_000,
                },
                resolve: ResolveTransferArgs { predecessor: "bob.testnet".to_string(), initial_balance: price },
                resolve_gas: 2_000_000_000_000,
            }
        );
        assert_eq!(contract.amount(), 1000000000000000000000000 - tokens);
        assert_eq!(contract.amount_claimed(), tokens);
    }
}

#[test]
fn buy_counts_a_quantity_of_zero_as_one() {
    let mut contract = setup_contract();
    let price: u128 = 100_000_000_000_000_000_000_000_000;
    let outcome = contract.buy(1, 0, "bob.testnet".to_string(), price).unwrap();
    assert_eq!(outcome.transfer.amount, 100_000_000_000);
    assert_eq!(contract.amount_claimed(), 100_000_000_000);
}

#[test]
fn buy_multiplies_by_the_quantity() {
    let mut contract = setup_contract();
    let price: u128 = 500_000_000_000_000_000_000_000_000 * 255;
    let outcome = contract.buy(2, 255, "bob.testnet".to_string(), price).unwrap();
    assert_eq!(outcome.transfer.amount, 750_000_000_000 * 255);
    assert_eq!(outcome.resolve.initial_balance, price);
    assert_eq!(contract.amount(), 1000000000000000000000000 - 750_000_000_000 * 255);
    assert_eq!(contract.amount_claimed(), 750_000_000_000 * 255);
}

#[test]
fn buy_twice_adds_up() {
    let mut contract = setup_contract();
    let price: u128 = 100_000_000_000_000_000_000_000_000;
    contract.buy(1, 1, "bob.testnet".to_string(), price).unwrap();
    contract.buy(1, 2, "carol.testnet".to_string(), 2 * price).unwrap();
    assert_eq!(contract.amount_claimed(), 300_000_000_000);
    assert_eq!(contract.amount() + contract.amount_claimed(), 1000000000000000000000000);
}

#[test]
fn buy_is_refused_when_inactive() {
    let mut contract = setup_contract();
    contract.deactivate(&"alice.testnet".to_string()).unwrap();
    let price: u128 = 100_000_000_000_000_000_000_000_000;
    assert_eq!(
        contract.buy(1, 1, "bob.testnet".to_string(), price),
        Err(PackageError::ContractInactive)
    );
    assert_eq!(contract.buy(9, 1, "bob.testnet".to_string(), 0), Err(PackageError::ContractInactive));
    assert_eq!(contract.amount_claimed(), 0);
}

#[test]
fn buy_is_refused_for_an_unknown_package() {
    let mut contract = setup_contract();
    assert_eq!(contract.buy(0, 1, "bob.testnet".to_string(), 0), Err(PackageError::InvalidPackage));
    assert_eq!(contract.buy(4, 1, "bob.testnet".to_string(), 0), Err(PackageError::InvalidPackage));
    assert_eq!(contract.amount(), 1000000000000000000000000);
}

#[test]
fn buy_is_refused_when_supply_is_short() {
    let mut contract =
        Contract::new("alice.testnet".to_string(), "token.testnet".to_string(), 99_999_999_999, 1, 1, 0).unwrap();
    let price: u128 = 100_000_000_000_000_000_000_000_000;
    assert_eq!(
        contract.buy(1, 1, "bob.testnet".to_string(), price),
        Err(PackageError::InsufficientSupply)
    );
    assert_eq!(contract.buy(1, 1, "bob.testnet".to_string(), 5), Err(PackageError::InsufficientSupply));
    assert_eq!(contract.amount(), 99_999_999_999);
    assert_eq!(contract.amount_claimed(), 0);
}

#[test]
fn buy_takes_the_last_tokens() {
    let mut contract =
        Contract::new("alice.testnet".to_string(), "token.testnet".to_string(), 100_000_000_000, 1, 1, 0).unwrap();
    let price: u128 = 100_000_000_000_000_000_000_000_000;
    assert!(contract.buy(1, 1, "bob.testnet".to_string(), price).is_ok());
    assert_eq!(contract.amount(), 0);
    assert_eq!(contract.amount_claimed(), 100_000_000_000);
}

#[test]
fn buy_is_refused_when_the_deposit_is_not_the_price() {
    let mut contract = setup_contract();
    let price: u128 = 100_000_000_000_000_000_000_000_000;
    assert_eq!(
        contract.buy(1, 1, "bob.testnet".to_string(), price - 1),
        Err(PackageError::DepositMismatch)
    );
    assert_eq!(
        contract.buy(1, 1, "bob.testnet".to_string(), price + 1),
        Err(PackageError::DepositMismatch)
    );
    assert_eq!(contract.buy(1, 2, "bob.testnet".to_string(), price), Err(PackageError::DepositMismatch));
    assert_eq!(contract.amount_claimed(), 0);
}

#[test]
fn resolve_transfer_refunds_a_failed_transfer() {
    let refund = Contract::resolve_transfer(
        ResolveTransferArgs { predecessor: "bob.testnet".to_string(), initial_balance: 42 },
        true,
    );
    assert_eq!(refund, Some(Refund { receiver_id: "bob.testnet".to_string(), amount: 42 }));
}

#[test]
fn resolve_transfer_owes_nothing_after_a_transfer() {
    let refund = Contract::resolve_transfer(
        ResolveTransferArgs { predecessor: "bob.testnet".to_string(), initial_balance: 42 },
        false,
    );
    assert_eq!(refund, None);
}

#[test]
fn resolve_transfer_input_wraps_the_bytes() {
    let input = resolve_transfer_input(&b"{}".to_vec());
    assert_eq!(String::from_utf8(input).unwrap(), "{\"args\":[123,125]}");
    let empty = resolve_transfer_input(&Vec::new());
    assert_eq!(String::from_utf8(empty).unwrap(), "{\"args\":[]}");
}

#[test]
fn resolve_transfer_input_reads_back() {
    let serialized = b"{\"predecessor\":\"bob.testnet\",\"initial_balance\":\"42\"}".to_vec();
    let input = resolve_transfer_input(&serialized);
    let value: serde_json::Value = serde_json::from_slice(&input).unwrap();
    let numbers = value.get("args").unwrap().as_array().unwrap();
    let bytes: Vec<u8> = numbers.iter().map(|n| n.as_u64().unwrap() as u8).collect();
    assert_eq!(bytes, serialized);
}

#[test]
fn restore_gives_the_stored_sale() {
    let sale = Contract::restore("a".to_string(), "t".to_string(), 10, 5, 7, 3, false).unwrap();
    assert_eq!(sale.owner(), "a");
    assert_eq!(sale.token(), "t");
    assert_eq!(sale.amount(), 10);
    assert_eq!(sale.amount_claimed(), 5);
    assert_eq!(sale.start(), 7);
    assert_eq!(sale.duration(), 3);
    assert!(!sale.is_active());
}

#[test]
fn restore_refuses_what_is_no_sale() {
    assert!(Contract::restore("a".to_string(), "t".to_string(), 10, 5, 7, 0, true).is_none());
    assert!(Contract::restore("a".to_string(), "t".to_string(), 10, 5, u64::MAX, 1, true).is_none());
    assert!(Contract::restore("a".to_string(), "t".to_string(), u128::MAX, 1, 7, 3, true).is_none());
    assert!(Contract::restore("a".to_string(), "t".to_string(), u128::MAX, 0, 7, 3, true).is_some());
}
