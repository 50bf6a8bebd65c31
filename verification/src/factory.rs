use crate::assoc::{assoc, assoc_ok, lemma_assoc_at, lemma_assoc_len, lemma_assoc_push,
    lemma_assoc_update};
use crate::text::{
    append_decimal, clone_opt_bytes, clone_opt_text, decimal_text, lemma_decimal_text_injective,
    opt_bytes, opt_text,
};
use vstd::prelude::*;
use vstd::string::*;

verus! {

/// What the creation of a token costs, in units of the fungible token.
pub const TOKEN_CREATION_FEE: u128 = 100;

/// Deposit attached to the minting call.
pub const MINT_DEPOSIT: u128 = 10_710_000_000_000_000_000_000;

/// Gas attached to the minting call.
pub const MINT_GAS: u64 = 50_000_000_000_000;

/// Deposit attached to the transfer that hands an excess back.
pub const REFUND_DEPOSIT: u128 = 1;

/// Gas attached to the transfer that hands an excess back.
pub const REFUND_GAS: u64 = 10_000_000_000_000;

/// Why a request to the factory was turned down.
#[derive(Clone, Copy, Debug, PartialEq, Eq)]
pub enum FactoryError {
    /// The cost of an account entry does not fit in 128 bits.
    CostOverflow,
    /// A first deposit does not cover the cost of the account's entry.
    DepositTooLow,
    /// The account's balance would not fit in 128 bits.
    BalanceOverflow,
    /// Fewer tokens were sent than a creation costs.
    InsufficientFee,
    /// The message that came with the tokens does not describe a token.
    InvalidMessage,
    /// The number of the next token does not fit in 64 bits.
    TooManyTokens,
    /// A token already stands at that position.
    PositionTaken,
}

/// What is known about one token.
#[derive(Debug, PartialEq, Eq)]
pub struct TokenMetadata {
    pub title: Option<String>,
    pub description: Option<String>,
    pub media: Option<String>,
    pub media_hash: Option<Vec<u8>>,
    pub copies: Option<u64>,
    pub issued_at: Option<String>,
    pub expires_at: Option<String>,
    pub starts_at: Option<String>,
    pub updated_at: Option<String>,
    pub extra: Option<String>,
    pub reference: Option<String>,
    pub reference_hash: Option<Vec<u8>>,
}

/// [`TokenMetadata`] as plain values.
pub struct TokenMetadataView {
    pub title: Option<Seq<char>>,
    pub description: Option<Seq<char>>,
    pub media: Option<Seq<char>>,
    pub media_hash: Option<Seq<u8>>,
    pub copies: Option<u64>,
    pub issued_at: Option<Seq<char>>,
    pub expires_at: Option<Seq<char>>,
    pub starts_at: Option<Seq<char>>,
    pub updated_at: Option<Seq<char>>,
    pub extra: Option<Seq<char>>,
    pub reference: Option<Seq<char>>,
    pub reference_hash: Option<Seq<u8>>,
}

impl View for TokenMetadata {
    type V = TokenMetadataView;

    open spec fn view(&self) -> TokenMetadataView {
        TokenMetadataView {
            title: opt_text(self.title),
            description: opt_text(self.description),
            media: opt_text(self.media),
            media_hash: opt_bytes(self.media_hash),
            copies: self.copies,
            issued_at: opt_text(self.issued_at),
            expires_at: opt_text(self.expires_at),
            starts_at: opt_text(self.starts_at),
            updated_at: opt_text(self.updated_at),
            extra: opt_text(self.extra),
            reference: opt_text(self.reference),
            reference_hash: opt_bytes(self.reference_hash),
        }
    }
}

impl TokenMetadata {
    /// A copy of the metadata.
    pub fn duplicate(&self) -> (copy: TokenMetadata)
        ensures
            copy@ == self@,
    {
        TokenMetadata {
            title: clone_opt_text(&self.title),
            description: clone_opt_text(&self.description),
            media: clone_opt_text(&self.media),
            media_hash: clone_opt_bytes(&self.media_hash),
            copies: self.copies,
            issued_at: clone_opt_text(&self.issued_at),
            expires_at: clone_opt_text(&self.expires_at),
            starts_at: clone_opt_text(&self.starts_at),
            updated_at: clone_opt_text(&self.updated_at),
            extra: clone_opt_text(&self.extra),
            reference: clone_opt_text(&self.reference),
            reference_hash: clone_opt_bytes(&self.reference_hash),
        }
    }
}

/// A request to create a token: who will own it, what is known about it,
/// and where it stands.
#[derive(Debug, PartialEq, Eq)]
pub struct TokenArgs {
    pub owner_id: String,
    pub token_metadata: TokenMetadata,
    pub x: String,
    pub y: String,
}

/// [`TokenArgs`] as plain values.
pub struct TokenArgsView {
    pub owner_id: Seq<char>,
    pub token_metadata: TokenMetadataView,
    pub x: Seq<char>,
    pub y: Seq<char>,
}

impl View for TokenArgs {
    type V = TokenArgsView;

    open spec fn view(&self) -> TokenArgsView {
        TokenArgsView {
            owner_id: self.owner_id@,
            token_metadata: self.token_metadata@,
            x: self.x@,
            y: self.y@,
        }
    }
}

impl TokenArgs {
    /// A copy of the request.
    pub fn duplicate(&self) -> (copy: TokenArgs)
        ensures
            copy@ == self@,
    {
        TokenArgs {
            owner_id: self.owner_id.clone(),
            token_metadata: self.token_metadata.duplicate(),
            x: self.x.clone(),
            y: self.y.clone(),
        }
    }
}

/// The text of an optional request.
pub open spec fn opt_args(message: Option<TokenArgs>) -> Option<TokenArgsView> {
    match message {
        Some(args) => Some(args@),
        None => None,
    }
}

/// What the token ledger is asked to mint.
#[derive(Debug, PartialEq, Eq)]
pub struct NFTMint {
    pub token_id: String,
    pub receiver_id: String,
    pub token_metadata: TokenMetadata,
}

/// [`NFTMint`] as plain values.
pub struct NFTMintView {
    pub token_id: Seq<char>,
    pub receiver_id: Seq<char>,
    pub token_metadata: TokenMetadataView,
}

impl View for NFTMint {
    type V = NFTMintView;

    open spec fn view(&self) -> NFTMintView {
        NFTMintView {
            token_id: self.token_id@,
            receiver_id: self.receiver_id@,
            token_metadata: self.token_metadata@,
        }
    }
}

/// The arguments of a balance query on the fungible-token ledger.
#[derive(Debug, PartialEq, Eq)]
pub struct FtBalanceOfArgs {
    pub account_id: String,
}

/// The arguments of a transfer on the fungible-token ledger.
#[derive(Debug, PartialEq, Eq)]
pub struct FtTransferArgs {
    pub receiver_id: String,
    pub amount: u128,
    pub memo: Option<String>,
}

/// A minting call to be made on the token ledger `contract_id`.
#[derive(Debug, PartialEq, Eq)]
pub struct MintCall {
    pub contract_id: String,
    pub mint: NFTMint,
    pub attached_deposit: u128,
    pub gas: u64,
}

/// A transfer call to be made on `contract_id`, to hand an excess back.
#[derive(Debug, PartialEq, Eq)]
pub struct RefundCall {
    pub contract_id: String,
    pub transfer: FtTransferArgs,
    pub attached_deposit: u128,
    pub gas: u64,
}

/// What an accepted creation asks of the caller: how many of the tokens sent
/// to hand back at once, the minting call, and the transfer of the excess, if
/// there is one.
#[derive(Debug, PartialEq, Eq)]
pub struct FtOnTransferOutcome {
    pub unused: u128,
    pub mint: MintCall,
    pub refund: Option<RefundCall>,
}

/// The id of the token with the given number: the letter R and the number.
pub open spec fn token_id_text(number: nat) -> Seq<char> {
    "R"@ + decimal_text(number)
}

/// The id of the token at index `i` in the order of creation.
pub open spec fn token_id_at(i: int) -> Seq<char> {
    token_id_text((i + 1) as nat)
}

/// The position of a token: its coordinates with a hyphen between them.
pub open spec fn position_text(x: Seq<char>, y: Seq<char>) -> Seq<char> {
    x + "-"@ + y
}

/// The title of a minted token.
pub open spec fn title_text(x: Seq<char>, y: Seq<char>) -> Seq<char> {
    "Land #"@ + x + "-"@ + y
}

/// The extra data of a minted token.
pub open spec fn extra_text(x: Seq<char>, y: Seq<char>) -> Seq<char> {
    "{ 'x': "@ + x + ", 'y': "@ + y + " }"@
}

/// The memo of the transfer that hands an excess back.
pub open spec fn refund_memo_text() -> Seq<char> {
    "Refund for excess deposit"@
}

/// The metadata under which a requested token is minted: the request's own,
/// with a title and extra data made from the position, in one copy.
pub open spec fn minted_metadata(args: TokenArgsView) -> TokenMetadataView {
    TokenMetadataView {
        title: Some(title_text(args.x, args.y)),
        copies: Some(1u64),
        extra: Some(extra_text(args.x, args.y)),
        ..args.token_metadata
    }
}

/// Tokens with different numbers have different ids.
pub proof fn lemma_token_ids_distinct(a: nat, b: nat)
    requires
        token_id_text(a) == token_id_text(b),
    ensures
        a == b,
{
    reveal_strlit("R");
    let ta = token_id_text(a);
    let tb = token_id_text(b);
    assert(ta.subrange(1, ta.len() as int) =~= decimal_text(a));
    assert(tb.subrange(1, tb.len() as int) =~= decimal_text(b));
    lemma_decimal_text_injective(a, b);
}

/// A token id names at most one token: the index that [`TokenFactoryView::token_index`]
/// gives is the only one whose token has that id.
pub proof fn lemma_token_index(factory: TokenFactoryView, token_id: Seq<char>, i: int)
    ensures
        factory.token_index(token_id) == Some(i) <==> 0 <= i < factory.tokens.len() && token_id_at(i)
            == token_id,
{
    if 0 <= i < factory.tokens.len() && token_id_at(i) == token_id {
        let found = factory.token_index(token_id).unwrap();
        lemma_token_ids_distinct((found + 1) as nat, (i + 1) as nat);
    }
}

/// An accepted creation keeps the factory well formed: the new token is the
/// last, under the id that the minting call names, and every token before it
/// keeps its number.
pub proof fn lemma_creation_keeps_well_formed(
    factory: TokenFactoryView,
    args: TokenArgsView,
    predecessor: Seq<char>,
    attached_deposit: u128,
)
    requires
        factory.well_formed(),
        factory.creation_error(args, predecessor, attached_deposit) is None,
    ensures
        factory.after_creation(args, predecessor, attached_deposit).well_formed(),
        factory.after_creation(args, predecessor, attached_deposit).token_index(
            factory.mint_request(args).token_id,
        ) == Some(factory.tokens.len() as int),
        forall|i: int|
            0 <= i < factory.tokens.len() ==> #[trigger] factory.after_creation(
                args,
                predecessor,
                attached_deposit,
            ).tokens[i] == factory.tokens[i],
{
    let after = factory.after_creation(args, predecessor, attached_deposit);
    let before = positions(factory.tokens);
    let places = positions(after.tokens);
    assert forall|a: int, b: int| 0 <= a < places.len() && 0 <= b < places.len() && a != b
        implies places[a]
        != places[b] by {
        let last = factory.tokens.len() as int;
        if a < last && b < last {
            assert(before[a] != before[b]);
        } else if a < last {
            assert(position_text(factory.tokens[a].x, factory.tokens[a].y)
                != position_text(args.x, args.y));
        } else {
            assert(position_text(factory.tokens[b].x, factory.tokens[b].y)
                != position_text(args.x, args.y));
        }
    }
    assert(token_id_at(factory.tokens.len() as int) == factory.mint_request(args).token_id);
    lemma_token_index(after, factory.mint_request(args).token_id, factory.tokens.len() as int);
}

/// The factory as plain values: the tokens in the order of their creation
/// (the token at index `i` has number `i + 1`), the storage balance of each
/// registered account, the cost of an account's entry, and the two ledgers.
pub struct TokenFactoryView {
    pub tokens: Seq<TokenArgsView>,
    pub storage_deposits: Map<Seq<char>, nat>,
    pub storage_balance_cost: nat,
    pub ft_contract_id: Seq<char>,
    pub nft_contract_id: Seq<char>,
}

impl TokenFactoryView {
    /// What holds of every factory: no two tokens stand at one position, and
    /// finitely many accounts are registered.
    pub open spec fn well_formed(self) -> bool {
        positions(self.tokens).no_duplicates() && self.storage_deposits.dom().finite()
    }

    /// Whether a token stands at `position`.
    pub open spec fn position_taken(self, position: Seq<char>) -> bool {
        exists|i: int|
            0 <= i < self.tokens.len() && #[trigger] position_text(
                self.tokens[i].x,
                self.tokens[i].y,
            ) == position
    }

    /// The index of the token with the given id, if there is one.
    pub open spec fn token_index(self, token_id: Seq<char>) -> Option<int> {
        if exists|i: int| 0 <= i < self.tokens.len() && #[trigger] token_id_at(i) == token_id {
            Some(choose|i: int| 0 <= i < self.tokens.len() && #[trigger] token_id_at(i) == token_id)
        } else {
            None
        }
    }

    /// Why a deposit by `account` is turned down, if it is.
    pub open spec fn deposit_error(self, account: Seq<char>, deposit: u128) -> Option<FactoryError> {
        if self.storage_deposits.dom().contains(account) {
            if self.storage_deposits[account] + deposit > u128::MAX {
                Some(FactoryError::BalanceOverflow)
            } else {
                None
            }
        } else if deposit < self.storage_balance_cost {
            Some(FactoryError::DepositTooLow)
        } else {
            None
        }
    }

    /// The factory after an accepted deposit: a registered account's balance
    /// grows by the deposit; a new account is registered with the deposit less
    /// the cost of its entry.
    pub open spec fn after_deposit(self, account: Seq<char>, deposit: u128) -> TokenFactoryView {
        let balance: nat = if self.storage_deposits.dom().contains(account) {
            (self.storage_deposits[account] + deposit) as nat
        } else {
            (deposit - self.storage_balance_cost) as nat
        };
        TokenFactoryView { storage_deposits: self.storage_deposits.insert(account, balance), ..self }
    }

    /// Why the creation of a token is turned down, if it is. A deposit is made
    /// only where something is attached.
    pub open spec fn creation_error(
        self,
        args: TokenArgsView,
        predecessor: Seq<char>,
        attached_deposit: u128,
    ) -> Option<FactoryError> {
        if attached_deposit > 0 && self.deposit_error(predecessor, attached_deposit) is Some {
            self.deposit_error(predecessor, attached_deposit)
        } else if self.tokens.len() >= u64::MAX {
            Some(FactoryError::TooManyTokens)
        } else if self.position_taken(position_text(args.x, args.y)) {
            Some(FactoryError::PositionTaken)
        } else {
            None
        }
    }

    /// The factory after an accepted creation.
    pub open spec fn after_creation(
        self,
        args: TokenArgsView,
        predecessor: Seq<char>,
        attached_deposit: u128,
    ) -> TokenFactoryView {
        let paid = if attached_deposit > 0 {
            self.after_deposit(predecessor, attached_deposit)
        } else {
            self
        };
        TokenFactoryView { tokens: self.tokens.push(args), ..paid }
    }

    /// What the token ledger is asked to mint for an accepted creation.
    pub open spec fn mint_request(self, args: TokenArgsView) -> NFTMintView {
        NFTMintView {
            token_id: token_id_text(self.tokens.len() + 1),
            receiver_id: args.owner_id,
            token_metadata: minted_metadata(args),
        }
    }

    /// Why tokens sent for a creation are turned down, if they are.
    pub open spec fn transfer_error(
        self,
        amount: u128,
        message: Option<TokenArgsView>,
        predecessor: Seq<char>,
        attached_deposit: u128,
    ) -> Option<FactoryError> {
        if amount < TOKEN_CREATION_FEE {
            Some(FactoryError::InsufficientFee)
        } else if message is None {
            Some(FactoryError::InvalidMessage)
        } else {
            self.creation_error(message.unwrap(), predecessor, attached_deposit)
        }
    }
}

/// The requests of a list as plain values.
pub open spec fn args_views(tokens: Seq<TokenArgs>) -> Seq<TokenArgsView> {
    tokens.map_values(|a: TokenArgs| a@)
}

/// The storage balance of one registered account.
#[derive(Debug, PartialEq, Eq)]
pub struct StorageBalance {
    pub account_id: String,
    pub balance: u128,
}

/// The accounts of a list of storage balances.
pub open spec fn balance_accounts(balances: Seq<StorageBalance>) -> Seq<Seq<char>> {
    balances.map_values(|b: StorageBalance| b.account_id@)
}

/// The amounts of a list of storage balances.
pub open spec fn balance_amounts(balances: Seq<StorageBalance>) -> Seq<nat> {
    balances.map_values(|b: StorageBalance| b.balance as nat)
}

/// The positions of a list of tokens.
pub open spec fn positions(tokens: Seq<TokenArgsView>) -> Seq<Seq<char>> {
    tokens.map_values(|a: TokenArgsView| position_text(a.x, a.y))
}

struct TokenEntry {
    token_id: String,
    position: String,
    args: TokenArgs,
}

struct DepositEntry {
    account_id: String,
    balance: u128,
}

spec fn entry_args(tokens: Seq<TokenEntry>) -> Seq<TokenArgsView> {
    tokens.map_values(|e: TokenEntry| e.args@)
}

spec fn deposit_accounts(deposits: Seq<DepositEntry>) -> Seq<Seq<char>> {
    deposits.map_values(|e: DepositEntry| e.account_id@)
}

spec fn deposit_balances(deposits: Seq<DepositEntry>) -> Seq<nat> {
    deposits.map_values(|e: DepositEntry| e.balance as nat)
}

spec fn tokens_ok(tokens: Seq<TokenEntry>) -> bool {
    &&& forall|i: int|
        0 <= i < tokens.len() ==> (#[trigger] tokens[i]).token_id@ == token_id_text((i + 1) as nat)
    &&& forall|i: int|
        0 <= i < tokens.len() ==> (#[trigger] tokens[i]).position@ == position_text(
            tokens[i].args.x@,
            tokens[i].args.y@,
        )
    &&& forall|i: int, j: int|
        0 <= i < j < tokens.len()
            ==> (#[trigger] tokens[i]).position@ != (#[trigger] tokens[j]).position@
}

/// Creates tokens on a token ledger against a fee in a fungible token, and
/// keeps the storage balance of each account that registered.
pub struct TokenFactory {
    tokens: Vec<TokenEntry>,
    deposits: Vec<DepositEntry>,
    storage_balance_cost: u128,
    ft_contract_id: String,
    nft_contract_id: String,
}

impl View for TokenFactory {
    type V = TokenFactoryView;

    closed spec fn view(&self) -> TokenFactoryView {
        TokenFactoryView {
            tokens: entry_args(self.tokens@),
            storage_deposits: assoc(self.deposit_keys(), self.deposit_vals()),
            storage_balance_cost: self.storage_balance_cost as nat,
            ft_contract_id: self.ft_contract_id@,
            nft_contract_id: self.nft_contract_id@,
        }
    }
}

fn token_id_for(number: u64) -> (id: String)
    ensures
        id@ == token_id_text(number as nat),
{
    let mut id = "R".to_owned();
    append_decimal(&mut id, number);
    id
}

fn position_for(x: &String, y: &String) -> (position: String)
    ensures
        position@ == position_text(x@, y@),
{
    let mut position = x.clone();
    position.append("-");
    position.append(y.as_str());
    position
}

fn title_for(x: &String, y: &String) -> (title: String)
    ensures
        title@ == title_text(x@, y@),
{
    let mut title = "Land #".to_owned();
    title.append(x.as_str());
    title.append("-");
    title.append(y.as_str());
    title
}

fn extra_for(x: &String, y: &String) -> (extra: String)
    ensures
        extra@ == extra_text(x@, y@),
{
    let mut extra = "{ 'x': ".to_owned();
    extra.append(x.as_str());
    extra.append(", 'y': ");
    extra.append(y.as_str());
    extra.append(" }");
    extra
}

impl TokenFactory {
    spec fn deposit_keys(&self) -> Seq<Seq<char>> {
        deposit_accounts(self.deposits@)
    }

    spec fn deposit_vals(&self) -> Seq<nat> {
        deposit_balances(self.deposits@)
    }

    #[verifier::type_invariant]
    spec fn inv(&self) -> bool {
        assoc_ok(self.deposit_keys(), self.deposit_vals()) && tokens_ok(self.tokens@)
    }

    /// A factory without tokens or registered accounts, for the two ledgers.
    /// The cost of an account's entry is the `account_entry_bytes` that it
    /// takes, at `storage_price_per_byte` each.
    pub fn new(
        ft_contract_id: String,
        nft_contract_id: String,
        account_entry_bytes: u64,
        storage_price_per_byte: u128,
    ) -> (created: Result<TokenFactory, FactoryError>)
        ensures
            match created {
                Ok(factory) => {
                    &&& factory@.well_formed()
                    &&& account_entry_bytes * storage_price_per_byte <= u128::MAX
                    &&& factory@ == (TokenFactoryView {
                        tokens: Seq::empty(),
                        storage_deposits: Map::empty(),
                        storage_balance_cost: (account_entry_bytes * storage_price_per_byte) as nat,
                        ft_contract_id: ft_contract_id@,
                        nft_contract_id: nft_contract_id@,
                    })
                },
                Err(e) => e == FactoryError::CostOverflow && account_entry_bytes
                    * storage_price_per_byte > u128::MAX,
            },
    {
        match (account_entry_bytes as u128).checked_mul(storage_price_per_byte) {
            None => Err(FactoryError::CostOverflow),
            Some(storage_balance_cost) => {
                let factory = TokenFactory {
                    tokens: Vec::new(),
                    deposits: Vec::new(),
                    storage_balance_cost,
                    ft_contract_id,
                    nft_contract_id,
                };
                assert(factory@.tokens =~= Seq::empty());
                assert(factory@.storage_deposits =~= Map::empty());
                proof {
                    factory.lemma_well_formed();
                }
                Ok(factory)
            },
        }
    }

    /// Rebuilds a factory from stored values: the tokens in the order of
    /// their creation and the storage balances. They are those of a factory
    /// when no two tokens stand at one position and no account has two
    /// balances.
    pub fn restore(
        ft_contract_id: String,
        nft_contract_id: String,
        storage_balance_cost: u128,
        tokens: Vec<TokenArgs>,
        balances: Vec<StorageBalance>,
    ) -> (restored: Option<TokenFactory>)
        ensures
            restored is Some <==> positions(args_views(tokens@)).no_duplicates() && balance_accounts(
                balances@,
            ).no_duplicates(),
            restored matches Some(factory) ==> factory@.well_formed() && factory@ == (TokenFactoryView {
                tokens: args_views(tokens@),
                storage_deposits: assoc(balance_accounts(balances@), balance_amounts(balances@)),
                storage_balance_cost: storage_balance_cost as nat,
                ft_contract_id: ft_contract_id@,
                nft_contract_id: nft_contract_id@,
            }),
    {
        let ghost wanted = args_views(tokens@);
        let ghost places = positions(wanted);
        let mut entries: Vec<TokenEntry> = Vec::new();
        let mut i: usize = 0;
        while i < tokens.len()
            invariant
                i <= tokens.len(),
                wanted == args_views(tokens@),
                places == positions(wanted),
                entries.len() == i,
                tokens_ok(entries@),
                entry_args(entries@) == wanted.subrange(0, i as int),
                forall|k: int| 0 <= k < i ==> (#[trigger] entries[k]).position@ == places[k],
            decreases tokens.len() - i,
        {
            let position = position_for(&tokens[i].x, &tokens[i].y);
            assert(position@ == places[i as int]);
            let mut j: usize = 0;
            while j < i
                invariant
                    j <= i < tokens.len(),
                    entries.len() == i,
                    places == positions(args_views(tokens@)),
                    position@ == places[i as int],
                    forall|k: int| 0 <= k < i ==> (#[trigger] entries[k]).position@ == places[k],
                    forall|k: int| 0 <= k < j ==> (#[trigger] entries[k]).position@ != position@,
                decreases i - j,
            {
                if entries[j].position == position {
                    assert(places[j as int] == places[i as int]);
                    return None;
                }
                j += 1;
            }
            let ghost before = entries@;
            let args = tokens[i].duplicate();
            entries.push(TokenEntry { token_id: token_id_for(i as u64 + 1), position, args });
            proof {
                assert forall|a: int, b: int| 0 <= a < b < entries@.len()
                    implies (#[trigger] entries@[a]).position@
                    != (#[trigger] entries@[b]).position@ by {
                    if b < i {
                        assert(entries@[a] == before[a] && entries@[b] == before[b]);
                    } else {
                        assert(entries@[a] == before[a]);
                    }
                }
                assert forall|k: int| 0 <= k < entries@.len() implies (#[trigger] entries@[k]).token_id@
                    == token_id_text((k + 1) as nat) by {
                    if k < i {
                        assert(entries@[k] == before[k]);
                    }
                }
                assert forall|k: int| 0 <= k < entries@.len() implies (#[trigger] entries@[k]).position@
                    == position_text(entries@[k].args.x@, entries@[k].args.y@) by {
                    if k < i {
                        assert(entries@[k] == before[k]);
                    }
                }
                assert forall|k: int| 0 <= k < i + 1
                    implies (#[trigger] entries[k]).position@ == places[k] by {
                    if k < i {
                        assert(entries@[k] == before[k]);
                    }
                }
                assert(entry_args(entries@) =~= entry_args(before).push(wanted[i as int]));
                assert(wanted.subrange(0, i + 1)
                    =~= wanted.subrange(0, i as int).push(wanted[i as int]));
            }
            i += 1;
        }
        proof {
            assert(wanted.subrange(0, i as int) =~= wanted);
            assert forall|a: int, b: int| 0 <= a < places.len() && 0 <= b < places.len()
                && a != b implies places[a]
                != places[b] by {
                if a < b {
                    assert(entries[a].position@ != entries[b].position@);
                } else {
                    assert(entries[b].position@ != entries[a].position@);
                }
            }
        }
        let ghost accounts = balance_accounts(balances@);
        let ghost amounts = balance_amounts(balances@);
        let mut deposits: Vec<DepositEntry> = Vec::new();
        let mut n: usize = 0;
        while n < balances.len()
            invariant
                n <= balances.len(),
                accounts == balance_accounts(balances@),
                amounts == balance_amounts(balances@),
                deposit_accounts(deposits@) == accounts.subrange(0, n as int),
                deposit_balances(deposits@) == amounts.subrange(0, n as int),
                accounts.subrange(0, n as int).no_duplicates(),
            decreases balances.len() - n,
        {
            let mut j: usize = 0;
            while j < n
                invariant
                    j <= n < balances.len(),
                    accounts == balance_accounts(balances@),
                    forall|k: int| 0 <= k < j ==> accounts[k] != accounts[n as int],
                decreases n - j,
            {
                if balances[j].account_id == balances[n].account_id {
                    assert(accounts[j as int] == accounts[n as int]);
                    return None;
                }
                j += 1;
            }
            let ghost before = deposits@;
            deposits.push(
                DepositEntry { account_id: balances[n].account_id.clone(),
                    balance: balances[n].balance },
            );
            proof {
                assert(deposit_accounts(deposits@)
                    =~= deposit_accounts(before).push(accounts[n as int]));
                assert(deposit_balances(deposits@) =~= deposit_balances(before).push(amounts[n as int]));
                assert(accounts.subrange(0, n + 1)
                    =~= accounts.subrange(0, n as int).push(accounts[n as int]));
                assert(amounts.subrange(0, n + 1)
                    =~= amounts.subrange(0, n as int).push(amounts[n as int]));
                let next = accounts.subrange(0, n + 1);
                assert forall|a: int, b: int| 0 <= a < next.len() && 0 <= b < next.len()
                    && a != b implies next[a]
                    != next[b] by {
                    let prev = accounts.subrange(0, n as int);
                    if a < n && b < n {
                        assert(prev[a] != prev[b]);
                    }
                }
            }
            n += 1;
        }
        proof {
            assert(accounts.subrange(0, n as int) =~= accounts);
            assert(amounts.subrange(0, n as int) =~= amounts);
        }
        let factory = TokenFactory {
            tokens: entries,
            deposits,
            storage_balance_cost,
            ft_contract_id,
            nft_contract_id,
        };
        proof {
            factory.lemma_well_formed();
        }
        Some(factory)
    }

    /// The storage balance of every registered account, each account once.
    pub fn storage_balances(&self) -> (balances: Vec<StorageBalance>)
        ensures
            balance_accounts(balances@).no_duplicates(),
            assoc(balance_accounts(balances@), balance_amounts(balances@)) == self@.storage_deposits,
    {
        proof {
            use_type_invariant(self);
        }
        let mut balances: Vec<StorageBalance> = Vec::new();
        let mut i: usize = 0;
        while i < self.deposits.len()
            invariant
                i <= self.deposits.len(),
                balance_accounts(balances@) == self.deposit_keys().subrange(0, i as int),
                balance_amounts(balances@) == self.deposit_vals().subrange(0, i as int),
            decreases self.deposits.len() - i,
        {
            let ghost before = balances@;
            balances.push(
                StorageBalance {
                    account_id: self.deposits[i].account_id.clone(),
                    balance: self.deposits[i].balance,
                },
            );
            proof {
                assert(balance_accounts(balances@) =~= balance_accounts(before).push(
                    self.deposit_keys()[i as int],
                ));
                assert(balance_amounts(balances@) =~= balance_amounts(before).push(
                    self.deposit_vals()[i as int],
                ));
            }
            i += 1;
            assert(balance_accounts(balances@) =~= self.deposit_keys().subrange(0, i as int));
            assert(balance_amounts(balances@) =~= self.deposit_vals().subrange(0, i as int));
        }
        assert(self.deposit_keys().subrange(0, i as int) =~= self.deposit_keys());
        assert(self.deposit_vals().subrange(0, i as int) =~= self.deposit_vals());
        balances
    }

    /// The cost of an account's entry.
    pub fn storage_balance_cost(&self) -> (cost: u128)
        ensures
            cost == self@.storage_balance_cost,
    {
        self.storage_balance_cost
    }

    /// The ledger of the fungible token in which the fee is paid.
    pub fn ft_contract_id(&self) -> (id: String)
        ensures
            id@ == self@.ft_contract_id,
    {
        self.ft_contract_id.clone()
    }

    /// The ledger on which the tokens are minted.
    pub fn nft_contract_id(&self) -> (id: String)
        ensures
            id@ == self@.nft_contract_id,
    {
        self.nft_contract_id.clone()
    }

    proof fn lemma_well_formed(&self)
        requires
            self.inv(),
        ensures
            self@.well_formed(),
    {
        lemma_assoc_len(self.deposit_keys(), self.deposit_vals());
        let places = positions(self@.tokens);
        assert forall|a: int, b: int| 0 <= a < places.len() && 0 <= b < places.len()
            && a != b implies places[a]
            != places[b] by {
            if a < b {
                assert(self.tokens[a].position@ != self.tokens[b].position@);
            } else {
                assert(self.tokens[b].position@ != self.tokens[a].position@);
            }
        }
    }

    fn find_deposit(&self, account_id: &String) -> (slot: Option<usize>)
        ensures
            match slot {
                Some(i) => i < self.deposits.len() && self.deposit_keys()[i as int] == account_id@,
                None => !self.deposit_keys().contains(account_id@),
            },
    {
        let mut i: usize = 0;
        while i < self.deposits.len()
            invariant
                i <= self.deposits.len(),
                forall|j: int| 0 <= j < i ==> self.deposit_keys()[j] != account_id@,
            decreases self.deposits.len() - i,
        {
            if self.deposits[i].account_id == *account_id {
                return Some(i);
            }
            i += 1;
        }
        None
    }

    /// The storage balance of `account_id`, if it is registered.
    pub fn storage_balance_of(&self, account_id: &String) -> (balance: Option<u128>)
        ensures
            match balance {
                Some(b) => self@.storage_deposits.dom().contains(account_id@)
                    && self@.storage_deposits[account_id@] == b,
                None => !self@.storage_deposits.dom().contains(account_id@),
            },
    {
        proof {
            use_type_invariant(self);
        }
        match self.find_deposit(account_id) {
            Some(i) => {
                proof {
                    lemma_assoc_at(self.deposit_keys(), self.deposit_vals(), i as int);
                }
                Some(self.deposits[i].balance)
            },
            None => None,
        }
    }

    fn check_deposit(&self, account_id: &String, deposit: u128) -> (verdict: Result<
        (Option<usize>, u128),
        FactoryError,
    >)
        ensures
            match verdict {
                Ok((slot, balance)) => {
                    &&& self@.deposit_error(account_id@, deposit) is None
                    &&& self@.after_deposit(account_id@, deposit).storage_deposits
                        == self@.storage_deposits.insert(account_id@, balance as nat)
                    &&& match slot {
                        Some(i) => i < self.deposits.len() && self.deposit_keys()[i as int]
                            == account_id@,
                        None => !self.deposit_keys().contains(account_id@),
                    }
                },
                Err(e) => self@.deposit_error(account_id@, deposit) == Some(e),
            },
    {
        proof {
            use_type_invariant(self);
        }
        match self.find_deposit(account_id) {
            Some(i) => {
                proof {
                    lemma_assoc_at(self.deposit_keys(), self.deposit_vals(), i as int);
                }
                match self.deposits[i].balance.checked_add(deposit) {
                    Some(balance) => Ok((Some(i), balance)),
                    None => Err(FactoryError::BalanceOverflow),
                }
            },
            None => {
                if deposit < self.storage_balance_cost {
                    Err(FactoryError::DepositTooLow)
                } else {
                    Ok((None, deposit - self.storage_balance_cost))
                }
            },
        }
    }

    fn apply_deposit(&mut self, account_id: String, slot: Option<usize>, balance: u128)
        requires
            match slot {
                Some(i) => i < old(self).deposits.len() && old(self).deposit_keys()[i as int]
                    == account_id@,
                None => !old(self).deposit_keys().contains(account_id@),
            },
        ensures
            final(self)@ == (TokenFactoryView {
                storage_deposits: old(self)@.storage_deposits.insert(account_id@, balance as nat),
                ..old(self)@
            }),
            final(self).tokens == old(self).tokens,
    {
        proof {
            use_type_invariant(&*self);
        }
        let ghost keys = self.deposit_keys();
        let ghost vals = self.deposit_vals();
        let ghost account = account_id@;
        let mut deposits: Vec<DepositEntry> = Vec::new();
        core::mem::swap(&mut self.deposits, &mut deposits);
        match slot {
            Some(i) => {
                deposits[i] = DepositEntry { account_id, balance };
                proof {
                    assert(deposit_accounts(deposits@) =~= keys);
                    assert(deposit_balances(deposits@) =~= vals.update(i as int, balance as nat));
                    lemma_assoc_update(keys, vals, i as int, balance as nat);
                }
            },
            None => {
                deposits.push(DepositEntry { account_id, balance });
                proof {
                    assert(deposit_accounts(deposits@) =~= keys.push(account));
                    assert(deposit_balances(deposits@) =~= vals.push(balance as nat));
                    lemma_assoc_push(keys, vals, account, balance as nat);
                }
            },
        }
        core::mem::swap(&mut self.deposits, &mut deposits);
    }

    /// Registers `account_id` for storage, or adds to its balance. A first
    /// deposit must cover the cost of the account's entry, which is taken
    /// from it.
    pub fn storage_deposit(&mut self, account_id: String, deposit: u128) -> (done: Result<
        (),
        FactoryError,
    >)
        ensures
            old(self)@.well_formed(),
            final(self)@.well_formed(),
            match done {
                Ok(_) => old(self)@.deposit_error(account_id@, deposit) is None && final(self)@
                    == old(self)@.after_deposit(account_id@, deposit),
                Err(e) => old(self)@.deposit_error(account_id@, deposit) == Some(e) && final(self)@
                    == old(self)@,
            },
    {
        proof {
            use_type_invariant(&*self);
            self.lemma_well_formed();
        }
        match self.check_deposit(&account_id, deposit) {
            Ok((slot, balance)) => {
                self.apply_deposit(account_id, slot, balance);
                proof {
                    use_type_invariant(&*self);
                    self.lemma_well_formed();
                }
                Ok(())
            },
            Err(e) => Err(e),
        }
    }

    /// How many tokens were created.
    pub fn get_number_of_tokens(&self) -> (count: u64)
        ensures
            count == self@.tokens.len(),
            self@.well_formed(),
    {
        proof {
            use_type_invariant(self);
            self.lemma_well_formed();
        }
        self.tokens.len() as u64
    }

    /// The tokens from number `from_index + 1` on, `limit` of them at most, in
    /// the order of their creation.
    pub fn get_tokens(&self, from_index: u64, limit: u64) -> (tokens: Vec<TokenArgs>)
        ensures
            args_views(tokens@) == self@.tokens.subrange(
                if from_index <= self@.tokens.len() {
                    from_index as int
                } else {
                    self@.tokens.len() as int
                },
                if from_index + limit <= self@.tokens.len() {
                    from_index + limit
                } else {
                    self@.tokens.len() as int
                },
            ),
    {
        let count: usize = self.tokens.len();
        let first: usize = if from_index <= count as u64 {
            from_index as usize
        } else {
            count
        };
        let end: usize = if limit <= count as u64 - first as u64 {
            first + limit as usize
        } else {
            count
        };
        let mut tokens: Vec<TokenArgs> = Vec::new();
        let mut i: usize = first;
        while i < end
            invariant
                first <= i <= end <= count,
                count == self.tokens.len(),
                args_views(tokens@) == self@.tokens.subrange(first as int, i as int),
            decreases end - i,
        {
            let ghost before = args_views(tokens@);
            let copy = self.tokens[i].args.duplicate();
            assert(copy@ == self@.tokens[i as int]);
            tokens.push(copy);
            assert(args_views(tokens@) =~= before.push(self@.tokens[i as int]));
            i += 1;
            assert(args_views(tokens@) =~= self@.tokens.subrange(
                first as int,
                i as int,
            ));
        }
        tokens
    }

    /// The token with the given id, if it was created.
    pub fn get_token(&self, token_id: String) -> (token: Option<TokenArgs>)
        ensures
            match token {
                Some(args) => self@.token_index(token_id@) matches Some(i) && args@
                    == self@.tokens[i],
                None => self@.token_index(token_id@) is None,
            },
    {
        proof {
            use_type_invariant(self);
        }
        let mut i: usize = 0;
        while i < self.tokens.len()
            invariant
                i <= self.tokens.len(),
                forall|j: int| 0 <= j < i ==> #[trigger] token_id_at(j) != token_id@,
                forall|j: int|
                    0 <= j < self.tokens.len() ==> (#[trigger] self.tokens[j]).token_id@
                        == token_id_text((j + 1) as nat),
            decreases self.tokens.len() - i,
        {
            if self.tokens[i].token_id == token_id {
                proof {
                    assert(token_id_at(i as int) == token_id@);
                    let found = self@.token_index(token_id@).unwrap();
                    lemma_token_ids_distinct((found + 1) as nat, (i as int + 1) as nat);
                }
                return Some(self.tokens[i].args.duplicate());
            }
            assert(token_id_at(i as int) != token_id@);
            i += 1;
        }
        None
    }

    fn position_is_taken(&self, position: &String) -> (taken: bool)
        ensures
            taken == self@.position_taken(position@),
            !taken ==> forall|j: int|
                0 <= j < self.tokens.len() ==> (#[trigger] self.tokens[j]).position@ != position@,
    {
        proof {
            use_type_invariant(self);
        }
        let mut i: usize = 0;
        while i < self.tokens.len()
            invariant
                i <= self.tokens.len(),
                forall|j: int| 0 <= j < i ==> (#[trigger] self.tokens[j]).position@ != position@,
                forall|j: int|
                    0 <= j < self.tokens.len() ==> (#[trigger] self.tokens[j]).position@
                        == position_text(self.tokens[j].args.x@, self.tokens[j].args.y@),
            decreases self.tokens.len() - i,
        {
            if self.tokens[i].position == *position {
                assert(position_text(self@.tokens[i as int].x, self@.tokens[i as int].y)
                    == position@);
                return true;
            }
            i += 1;
        }
        assert forall|j: int| 0 <= j < self@.tokens.len() implies #[trigger] position_text(
            self@.tokens[j].x,
            self@.tokens[j].y,
        ) != position@ by {
            assert(self.tokens[j].position@ != position@);
        }
        false
    }

    fn internal_create_token(
        &mut self,
        data: TokenArgs,
        predecessor: String,
        attached_deposit: u128,
    ) -> (created: Result<MintCall, FactoryError>)
        ensures
            match created {
                Ok(call) => {
                    &&& old(self)@.creation_error(data@, predecessor@, attached_deposit) is None
                    &&& final(self)@ == old(self)@.after_creation(
                        data@,
                        predecessor@,
                        attached_deposit,
                    )
                    &&& call.contract_id@ == old(self)@.nft_contract_id
                    &&& call.mint@ == old(self)@.mint_request(data@)
                    &&& call.attached_deposit == MINT_DEPOSIT
                    &&& call.gas == MINT_GAS
                },
                Err(e) => {
                    &&& old(self)@.creation_error(data@, predecessor@, attached_deposit) == Some(e)
                    &&& final(self)@ == old(self)@
                },
            },
    {
        proof {
            use_type_invariant(&*self);
        }
        let deposit: Option<(Option<usize>, u128)> = if attached_deposit > 0 {
            match self.check_deposit(&predecessor, attached_deposit) {
                Ok(found) => Some(found),
                Err(e) => {
                    return Err(e);
                },
            }
        } else {
            None
        };
        let count: u64 = self.tokens.len() as u64;
        if count == u64::MAX {
            return Err(FactoryError::TooManyTokens);
        }
        let position = position_for(&data.x, &data.y);
        if self.position_is_taken(&position) {
            return Err(FactoryError::PositionTaken);
        }
        match deposit {
            Some((slot, balance)) => {
                self.apply_deposit(predecessor, slot, balance);
            },
            None => {},
        }
        let token_id = token_id_for(count + 1);
        let mint = NFTMint {
            token_id: token_id.clone(),
            receiver_id: data.owner_id.clone(),
            token_metadata: TokenMetadata {
                title: Some(title_for(&data.x, &data.y)),
                description: clone_opt_text(&data.token_metadata.description),
                media: clone_opt_text(&data.token_metadata.media),
                media_hash: clone_opt_bytes(&data.token_metadata.media_hash),
                copies: Some(1),
                issued_at: clone_opt_text(&data.token_metadata.issued_at),
                expires_at: clone_opt_text(&data.token_metadata.expires_at),
                starts_at: clone_opt_text(&data.token_metadata.starts_at),
                updated_at: clone_opt_text(&data.token_metadata.updated_at),
                extra: Some(extra_for(&data.x, &data.y)),
                reference: clone_opt_text(&data.token_metadata.reference),
                reference_hash: clone_opt_bytes(&data.token_metadata.reference_hash),
            },
        };
        proof {
            use_type_invariant(&*self);
        }
        let ghost before = self.tokens@;
        let ghost added = data@;
        let mut tokens: Vec<TokenEntry> = Vec::new();
        core::mem::swap(&mut self.tokens, &mut tokens);
        tokens.push(TokenEntry { token_id, position, args: data });
        proof {
            assert(tokens@ == before.push(tokens@[before.len() as int]));
            assert(tokens_ok(before));
            assert forall|i: int, j: int| 0 <= i < j < tokens@.len()
                implies (#[trigger] tokens@[i]).position@
                != (#[trigger] tokens@[j]).position@ by {
                if j < before.len() {
                    assert(tokens@[i] == before[i] && tokens@[j] == before[j]);
                } else {
                    assert(tokens@[i] == before[i]);
                }
            }
            assert(tokens_ok(tokens@));
            assert(entry_args(tokens@) =~= entry_args(before).push(added));
        }
        core::mem::swap(&mut self.tokens, &mut tokens);
        Ok(
            MintCall {
                contract_id: self.nft_contract_id.clone(),
                mint,
                attached_deposit: MINT_DEPOSIT,
                gas: MINT_GAS,
            },
        )
    }

    /// Handles tokens sent by `sender_id` for the creation of a token.
    /// `message` is the request that came with them, if it could be read;
    /// `predecessor` is the caller and `attached_deposit` what the caller
    /// attached. The fee is checked first, then the message; then the token is
    /// created: a deposit is made for the caller where something is attached,
    /// the token gets the next number, and its position must be free. What was
    /// sent above the fee is transferred back. Where the request is turned
    /// down nothing changes.
    pub fn ft_on_transfer(
        &mut self,
        sender_id: String,
        amount: u128,
        message: Option<TokenArgs>,
        predecessor: String,
        attached_deposit: u128,
    ) -> (handled: Result<FtOnTransferOutcome, FactoryError>)
        ensures
            old(self)@.well_formed(),
            final(self)@.well_formed(),
            match handled {
                Ok(outcome) => {
                    &&& old(self)@.transfer_error(
                        amount,
                        opt_args(message),
                        predecessor@,
                        attached_deposit,
                    ) is None
                    &&& final(self)@ == old(self)@.after_creation(
                        opt_args(message).unwrap(),
                        predecessor@,
                        attached_deposit,
                    )
                    &&& outcome.unused == 0
                    &&& outcome.mint.contract_id@ == old(self)@.nft_contract_id
                    &&& outcome.mint.mint@ == old(self)@.mint_request(opt_args(message).unwrap())
                    &&& outcome.mint.attached_deposit == MINT_DEPOSIT
                    &&& outcome.mint.gas == MINT_GAS
                    &&& outcome.refund is Some <==> amount > TOKEN_CREATION_FEE
                    &&& outcome.refund matches Some(refund) ==> {
                        &&& refund.contract_id@ == sender_id@
                        &&& refund.transfer.receiver_id@ == predecessor@
                        &&& refund.transfer.amount == amount - TOKEN_CREATION_FEE
                        &&& opt_text(refund.transfer.memo) == Some(refund_memo_text())
                        &&& refund.attached_deposit == REFUND_DEPOSIT
                        &&& refund.gas == REFUND_GAS
                    }
                },
                Err(e) => {
                    &&& old(self)@.transfer_error(
                        amount,
                        opt_args(message),
                        predecessor@,
                        attached_deposit,
                    ) == Some(e)
                    &&& final(self)@ == old(self)@
                },
            },
    {
        proof {
            use_type_invariant(&*self);
            self.lemma_well_formed();
        }
        if amount < TOKEN_CREATION_FEE {
            return Err(FactoryError::InsufficientFee);
        }
        let data = match message {
            Some(data) => data,
            None => {
                return Err(FactoryError::InvalidMessage);
            },
        };
        let receiver_id = predecessor.clone();
        let mint = match self.internal_create_token(data, predecessor, attached_deposit) {
            Ok(mint) => mint,
            Err(e) => {
                return Err(e);
            },
        };
        let refund = if amount > TOKEN_CREATION_FEE {
            Some(
                RefundCall {
                    contract_id: sender_id,
                    transfer: FtTransferArgs {
                        receiver_id,
                        amount: amount - TOKEN_CREATION_FEE,
                        memo: Some("Refund for excess deposit".to_owned()),
                    },
                    attached_deposit: REFUND_DEPOSIT,
                    gas: REFUND_GAS,
                },
            )
        } else {
            None
        };
        proof {
            use_type_invariant(&*self);
            self.lemma_well_formed();
        }
        Ok(FtOnTransferOutcome { unused: 0, mint, refund })
    }
}

} // verus!
