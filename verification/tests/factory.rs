use marketplace::factory::{
    FactoryError, FtBalanceOfArgs, FtOnTransferOutcome, FtTransferArgs, MintCall, NFTMint, RefundCall,
    StorageBalance, TokenArgs, TokenFactory, TokenMetadata, MINT_DEPOSIT, MINT_GAS, REFUND_DEPOSIT, REFUND_GAS,
    TOKEN_CREATION_FEE,
};
use marketplace::token_id::is_valid_token_id;

const PRICE_PER_BYTE: u128 = 10_000_000_000_000_000_000;

fn metadata() -> TokenMetadata {
    TokenMetadata {
        title: Some("ignored".to_string()),
        description: Some("a plot".to_string()),
        media: Some("https://example.org/plot.png".to_string()),
        media_hash: Some(vec![1, 2, 3]),
        copies: Some(7),
        issued_at: Some("2023-01-01".to_string()),
        expires_at: None,
        starts_at: Some("2023-02-01".to_string()),
        updated_at: None,
        extra: Some("ignored too".to_string()),
        reference: Some("https://example.org/plot.json".to_string()),
        reference_hash: Some(vec![9, 8]),
    }
}

fn args(owner: &str, x: &str, y: &str) -> TokenArgs {
    TokenArgs { owner_id: owner.to_string(), token_metadata: metadata(), x: x.to_string(), y: y.to_string() }
}

fn factory() -> TokenFactory {
    TokenFactory::new("ft.testnet".to_string(), "nft.testnet".to_string(), 125, PRICE_PER_BYTE).unwrap()
}

fn create(factory: &mut TokenFactory, x: &str, y: &str) -> FtOnTransferOutcome {
    factory
        .ft_on_transfer("ft.testnet".to_string(), 100, Some(args("alice", x, y)), "ft.testnet".to_string(), 0)
        .unwrap()
}

#[test]
fn token_id_of_digits_and_small_letters_is_valid() {
    assert!(is_valid_token_id(&"abc123xyz0".to_string()));
    assert!(is_valid_token_id(&"0".to_string()));
    assert!(is_valid_token_id(&"z".to_string()));
    assert!(is_valid_token_id(&"09az".to_string()));
}

#[test]
fn empty_token_id_is_valid() {
    assert!(is_valid_token_id(&String::new()));
}

#[test]
fn token_id_with_anything_else_is_invalid() {
    assert!(!is_valid_token_id(&"R1".to_string()));
    assert!(!is_valid_token_id(&"abc-def".to_string()));
    assert!(!is_valid_token_id(&"abc def".to_string()));
    assert!(!is_valid_token_id(&"abc.".to_string()));
    assert!(!is_valid_token_id(&"/".to_string()));
    assert!(!is_valid_token_id(&":".to_string()));
    assert!(!is_valid_token_id(&"`".to_string()));
    assert!(!is_valid_token_id(&"{".to_string()));
    assert!(!is_valid_token_id(&"abcD".to_string()));
    assert!(!is_valid_token_id(&"caf\u{e9}".to_string()));
    assert!(!is_valid_token_id(&"a\u{0}".to_string()));
}

#[test]
fn new_factory_is_empty() {
    let factory = factory();
    assert_eq!(factory.get_number_of_tokens(), 0);
    assert_eq!(factory.storage_balance_cost(), 1_250_000_000_000_000_000_000);
    assert_eq!(factory.ft_contract_id(), "ft.testnet");
    assert_eq!(factory.nft_contract_id(), "nft.testnet");
    assert_eq!(factory.get_tokens(0, 10), vec![]);
    assert_eq!(factory.get_token("R1".to_string()), None);
    assert_eq!(factory.storage_balances(), vec![]);
}

#[test]
fn new_factory_refuses_a_cost_beyond_128_bits() {
    let made = TokenFactory::new("ft".to_string(), "nft".to_string(), 2, u128::MAX);
    assert_eq!(made.err(), Some(FactoryError::CostOverflow));
    let made = TokenFactory::new("ft".to_string(), "nft".to_string(), 1, u128::MAX).unwrap();
    assert_eq!(made.storage_balance_cost(), u128::MAX);
}

#[test]
fn first_deposit_pays_for_the_entry() {
    let mut factory = factory();
    let cost = factory.storage_balance_cost();
    assert_eq!(factory.storage_deposit("bob".to_string(), cost - 1), Err(FactoryError::DepositTooLow));
    assert_eq!(factory.storage_balance_of(&"bob".to_string()), None);
    assert_eq!(factory.storage_deposit("bob".to_string(), cost + 5), Ok(()));
    assert_eq!(factory.storage_balance_of(&"bob".to_string()), Some(5));
    assert_eq!(factory.storage_deposit("carol".to_string(), cost), Ok(()));
    assert_eq!(factory.storage_balance_of(&"carol".to_string()), Some(0));
}

#[test]
fn later_deposits_add_up() {
    let mut factory = factory();
    let cost = factory.storage_balance_cost();
    factory.storage_deposit("bob".to_string(), cost).unwrap();
    assert_eq!(factory.storage_deposit("bob".to_string(), 3), Ok(()));
    assert_eq!(factory.storage_deposit("bob".to_string(), 0), Ok(()));
    assert_eq!(factory.storage_deposit("bob".to_string(), 4), Ok(()));
    assert_eq!(factory.storage_balance_of(&"bob".to_string()), Some(7));
    assert_eq!(
        factory.storage_balances(),
        vec![StorageBalance { account_id: "bob".to_string(), balance: 7 }]
    );
}

#[test]
fn deposit_beyond_128_bits_is_refused() {
    let mut factory = TokenFactory::new("ft".to_string(), "nft".to_string(), 0, PRICE_PER_BYTE).unwrap();
    factory.storage_deposit("bob".to_string(), u128::MAX).unwrap();
    assert_eq!(factory.storage_deposit("bob".to_string(), 1), Err(FactoryError::BalanceOverflow));
    assert_eq!(factory.storage_balance_of(&"bob".to_string()), Some(u128::MAX));
}

#[test]
fn creation_mints_the_next_token() {
    let mut factory = factory();
    let outcome = create(&mut factory, "3", "-4");
    assert_eq!(
        outcome,
        FtOnTransferOutcome {
            unused: 0,
            mint: MintCall {
                contract_id: "nft.testnet".to_string(),
                mint: NFTMint {
                    token_id: "R1".to_string(),
                    receiver_id: "alice".to_string(),
                    token_metadata: TokenMetadata {
                        title: Some("Land #3--4".to_string()),
                        description: Some("a plot".to_string()),
                        media: Some("https://example.org/plot.png".to_string()),
                        media_hash: Some(vec![1, 2, 3]),
                        copies: Some(1),
                        issued_at: Some("2023-01-01".to_string()),
                        expires_at: None,
                        starts_at: Some("2023-02-01".to_string()),
                        updated_at: None,
                        extra: Some("{ 'x': 3, 'y': -4 }".to_string()),
                        reference: Some("https://example.org/plot.json".to_string()),
                        reference_hash: Some(vec![9, 8]),
                    },
                },
                attached_deposit: 10_710_000_000_000_000_000_000,
                gas: 50_000_000_000_000,
            },
            refund: None,
        }
    );
    assert_eq!(factory.get_number_of_tokens(), 1);
    assert_eq!(factory.get_token("R1".to_string()), Some(args("alice", "3", "-4")));
    assert_eq!(MINT_DEPOSIT, 10_710_000_000_000_000_000_000);
    assert_eq!(MINT_GAS, 50_000_000_000_000);
}

#[test]
fn creation_hands_the_excess_back() {
    let mut factory = factory();
    let outcome = factory
        .ft_on_transfer("ft.testnet".to_string(), 250, Some(args("alice", "1", "2")), "caller".to_string(), 0)
        .unwrap();
    assert_eq!(outcome.unused, 0);
    assert_eq!(
        outcome.refund,
        Some(RefundCall {
            contract_id: "ft.testnet".to_string(),
            transfer: FtTransferArgs {
                receiver_id: "caller".to_string(),
                amount: 150,
                memo: Some("Refund for excess deposit".to_string()),
            },
            attached_deposit: 1,
            gas: 10_000_000_000_000,
        })
    );
    assert_eq!(REFUND_DEPOSIT, 1);
    assert_eq!(REFUND_GAS, 10_000_000_000_000);
    assert_eq!(TOKEN_CREATION_FEE, 100);
}

#[test]
fn creation_numbers_tokens_in_decimal() {
    let mut factory = factory();
    for n in 1u64..=12 {
        let outcome = create(&mut factory, &n.to_string(), "0");
        assert_eq!(outcome.mint.mint.token_id, format!("R{}", n));
    }
    assert_eq!(factory.get_number_of_tokens(), 12);
    assert_eq!(factory.get_token("R10".to_string()), Some(args("alice", "10", "0")));
    assert_eq!(factory.get_token("R12".to_string()), Some(args("alice", "12", "0")));
    assert_eq!(factory.get_token("R13".to_string()), None);
    assert_eq!(factory.get_token("R0".to_string()), None);
    assert_eq!(factory.get_token("R01".to_string()), None);
    assert_eq!(factory.get_token("r1".to_string()), None);
    assert_eq!(factory.get_token("1".to_string()), None);
}

#[test]
fn creation_needs_the_fee() {
    let mut factory = factory();
    let refused =
        factory.ft_on_transfer("ft".to_string(), 99, Some(args("alice", "1", "2")), "caller".to_string(), 0);
    assert_eq!(refused, Err(FactoryError::InsufficientFee));
    let refused = factory.ft_on_transfer("ft".to_string(), 99, None, "caller".to_string(), 0);
    assert_eq!(refused, Err(FactoryError::InsufficientFee));
    assert_eq!(factory.get_number_of_tokens(), 0);
}

#[test]
fn creation_needs_a_readable_message() {
    let mut factory = factory();
    let refused = factory.ft_on_transfer("ft".to_string(), 100, None, "caller".to_string(), 0);
    assert_eq!(refused, Err(FactoryError::InvalidMessage));
    assert_eq!(factory.get_number_of_tokens(), 0);
}

#[test]
fn creation_needs_a_free_position() {
    let mut factory = factory();
    create(&mut factory, "1", "2");
    let refused =
        factory.ft_on_transfer("ft".to_string(), 100, Some(args("bob", "1", "2")), "caller".to_string(), 0);
    assert_eq!(refused, Err(FactoryError::PositionTaken));
    let refused =
        factory.ft_on_transfer("ft".to_string(), 100, Some(args("bob", "1-", "")), "caller".to_string(), 0);
    assert!(refused.is_ok());
    let refused =
        factory.ft_on_transfer("ft".to_string(), 100, Some(args("bob", "1", "-")), "caller".to_string(), 0);
    assert_eq!(refused, Err(FactoryError::PositionTaken));
    assert_eq!(factory.get_number_of_tokens(), 2);
}

#[test]
fn creation_makes_a_deposit_where_something_is_attached() {
    let mut factory = factory();
    let cost = factory.storage_balance_cost();
    let outcome = factory.ft_on_transfer(
        "ft".to_string(),
        100,
        Some(args("alice", "1", "2")),
        "caller".to_string(),
        cost + 9,
    );
    assert!(outcome.is_ok());
    assert_eq!(factory.storage_balance_of(&"caller".to_string()), Some(9));
    let outcome =
        factory.ft_on_transfer("ft".to_string(), 100, Some(args("alice", "5", "5")), "caller".to_string(), 1);
    assert!(outcome.is_ok());
    assert_eq!(factory.storage_balance_of(&"caller".to_string()), Some(10));
    let outcome =
        factory.ft_on_transfer("ft".to_string(), 100, Some(args("alice", "6", "6")), "other".to_string(), 0);
    assert!(outcome.is_ok());
    assert_eq!(factory.storage_balance_of(&"other".to_string()), None);
}

#[test]
fn refused_creation_changes_nothing() {
    let mut factory = factory();
    let cost = factory.storage_balance_cost();
    let refused = factory.ft_on_transfer(
        "ft".to_string(),
        100,
        Some(args("alice", "1", "2")),
        "caller".to_string(),
        cost - 1,
    );
    assert_eq!(refused, Err(FactoryError::DepositTooLow));
    assert_eq!(factory.get_number_of_tokens(), 0);
    create(&mut factory, "1", "2");
    let refused = factory.ft_on_transfer(
        "ft".to_string(),
        100,
        Some(args("alice", "1", "2")),
        "caller".to_string(),
        cost,
    );
    assert_eq!(refused, Err(FactoryError::PositionTaken));
    assert_eq!(factory.storage_balance_of(&"caller".to_string()), None);
    assert_eq!(factory.get_number_of_tokens(), 1);
}

#[test]
fn tokens_are_listed_in_pages() {
    let mut factory = factory();
    for n in 0..5 {
        create(&mut factory, &n.to_string(), "0");
    }
    let xs = |tokens: Vec<TokenArgs>| tokens.into_iter().map(|t| t.x).collect::<Vec<String>>();
    assert_eq!(xs(factory.get_tokens(0, 2)), vec!["0", "1"]);
    assert_eq!(xs(factory.get_tokens(2, 2)), vec!["2", "3"]);
    assert_eq!(xs(factory.get_tokens(4, 2)), vec!["4"]);
    assert_eq!(xs(factory.get_tokens(5, 2)), Vec::<String>::new());
    assert_eq!(xs(factory.get_tokens(9, 2)), Vec::<String>::new());
    assert_eq!(xs(factory.get_tokens(1, 0)), Vec::<String>::new());
    assert_eq!(xs(factory.get_tokens(0, u64::MAX)), vec!["0", "1", "2", "3", "4"]);
    assert_eq!(xs(factory.get_tokens(3, u64::MAX)), vec!["3", "4"]);
    assert_eq!(xs(factory.get_tokens(u64::MAX, u64::MAX)), Vec::<String>::new());
}

#[test]
fn factory_is_rebuilt_from_what_it_gave_out() {
    let mut factory = factory();
    let cost = factory.storage_balance_cost();
    create(&mut factory, "1", "2");
    create(&mut factory, "3", "4");
    factory.storage_deposit("bob".to_string(), cost + 2).unwrap();
    factory.storage_deposit("carol".to_string(), cost).unwrap();
    let rebuilt = TokenFactory::restore(
        factory.ft_contract_id(),
        factory.nft_contract_id(),
        factory.storage_balance_cost(),
        factory.get_tokens(0, u64::MAX),
        factory.storage_balances(),
    )
    .unwrap();
    assert_eq!(rebuilt.get_tokens(0, u64::MAX), factory.get_tokens(0, u64::MAX));
    assert_eq!(rebuilt.get_token("R2".to_string()), Some(args("alice", "3", "4")));
    assert_eq!(rebuilt.storage_balances(), factory.storage_balances());
    assert_eq!(rebuilt.storage_balance_of(&"bob".to_string()), Some(2));
    assert_eq!(rebuilt.storage_balance_cost(), cost);
}

#[test]
fn factory_is_not_rebuilt_from_clashing_values() {
    let twice = vec![args("a", "1", "2"), args("b", "1", "2")];
    assert!(TokenFactory::restore("ft".to_string(), "nft".to_string(), 1, twice, vec![]).is_none());
    let balances = vec![
        StorageBalance { account_id: "bob".to_string(), balance: 1 },
        StorageBalance { account_id: "bob".to_string(), balance: 2 },
    ];
    assert!(TokenFactory::restore("ft".to_string(), "nft".to_string(), 1, vec![], balances).is_none());
}

#[test]
fn copies_are_equal() {
    assert_eq!(args("alice", "1", "2").duplicate(), args("alice", "1", "2"));
    assert_eq!(metadata().duplicate(), metadata());
    let query = FtBalanceOfArgs { account_id: "bob".to_string() };
    assert_eq!(query.account_id, "bob");
}
