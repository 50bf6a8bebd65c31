use crate::json::{json_object_of_bytes, json_object_text};
use vstd::prelude::*;
use vstd::string::*;
use vstd::utf8::encode_utf8;

verus! {

/// Gas attached to a token transfer on the fungible-token ledger.
pub const GAS_FOR_FT_TRANSFER: u64 = 100_000_000_000;

/// Gas attached to the follow-up call that resolves a purchase.
pub const GAS_FOR_RESOLVE_TRANSFER: u64 = 2_000_000_000_000;

/// Deposit attached to a token transfer.
pub const FT_TRANSFER_DEPOSIT: u128 = 1;

/// Price of one package of the first kind.
pub const PACKAGE_ONE_PRICE: u128 = 100_000_000_000_000_000_000_000_000;

/// Tokens in one package of the first kind.
pub const PACKAGE_ONE_TOKENS: u128 = 100_000_000_000;

/// Price of one package of the second kind.
pub const PACKAGE_TWO_PRICE: u128 = 500_000_000_000_000_000_000_000_000;

/// Tokens in one package of the second kind.
pub const PACKAGE_TWO_TOKENS: u128 = 750_000_000_000;

/// Price of one package of the third kind.
pub const PACKAGE_THREE_PRICE: u128 = 1_500_000_000_000_000_000_000_000_000;

/// Tokens in one package of the third kind.
pub const PACKAGE_THREE_TOKENS: u128 = 3_000_000_000_000;

/// Why a request to the package sale was turned down.
#[derive(Clone, Copy, Debug, PartialEq, Eq)]
pub enum PackageError {
    /// The sale would last no time at all.
    DurationIsZero,
    /// The end of the sale does not fit in 64 bits.
    IntegerOverflow,
    /// The sale would already be over when it is created.
    StartAndDurationInThePast,
    /// Somebody other than the owner tried to deactivate the sale.
    NotOwner,
    /// The sale has been deactivated.
    ContractInactive,
    /// There is no package of that number.
    InvalidPackage,
    /// Fewer tokens are left than were asked for.
    InsufficientSupply,
    /// The attached deposit is not the price of the purchase.
    DepositMismatch,
}

/// A transfer to be made on the fungible-token ledger.
#[derive(Debug, PartialEq, Eq)]
pub struct FtTransferCall {
    pub token: String,
    pub receiver_id: String,
    pub amount: u128,
    pub memo: Option<String>,
    pub attached_deposit: u128,
    pub gas: u64,
}

/// A storage registration to be made on the fungible-token ledger.
#[derive(Debug, PartialEq, Eq)]
pub struct StorageDepositCall {
    pub token: String,
    pub account_id: String,
    pub attached_deposit: u128,
}

/// What the follow-up of a purchase needs to know: who paid, and how much.
#[derive(Debug, PartialEq, Eq)]
pub struct ResolveTransferArgs {
    pub predecessor: String,
    pub initial_balance: u128,
}

/// Money to be handed back.
#[derive(Debug, PartialEq, Eq)]
pub struct Refund {
    pub receiver_id: String,
    pub amount: u128,
}

/// What an accepted purchase asks of the caller: make the transfer, then
/// resolve it with the given arguments and gas.
#[derive(Debug, PartialEq, Eq)]
pub struct BuyOutcome {
    pub transfer: FtTransferCall,
    pub resolve: ResolveTransferArgs,
    pub resolve_gas: u64,
}

/// The package sale as plain values.
pub struct ContractView {
    pub owner: Seq<char>,
    pub token: Seq<char>,
    pub amount: nat,
    pub amount_claimed: nat,
    pub start: nat,
    pub duration: nat,
    pub is_active: bool,
}

impl ContractView {
    /// The sale lasts some time, its end fits in 64 bits, and the tokens left
    /// and the tokens claimed together fit in 128 bits.
    pub open spec fn well_formed(self) -> bool {
        &&& self.duration > 0
        &&& self.start + self.duration <= u64::MAX
        &&& self.amount + self.amount_claimed <= u128::MAX
    }
}

/// The price of one package, if there is a package of that number.
pub open spec fn package_price(package: u8) -> Option<nat> {
    if package == 1 {
        Some(PACKAGE_ONE_PRICE as nat)
    } else if package == 2 {
        Some(PACKAGE_TWO_PRICE as nat)
    } else if package == 3 {
        Some(PACKAGE_THREE_PRICE as nat)
    } else {
        None
    }
}

/// The tokens in one package, if there is a package of that number.
pub open spec fn package_tokens(package: u8) -> Option<nat> {
    if package == 1 {
        Some(PACKAGE_ONE_TOKENS as nat)
    } else if package == 2 {
        Some(PACKAGE_TWO_TOKENS as nat)
    } else if package == 3 {
        Some(PACKAGE_THREE_TOKENS as nat)
    } else {
        None
    }
}

/// A quantity of zero counts as one.
pub open spec fn effective_quantity(quantity: u8) -> nat {
    if quantity == 0 {
        1
    } else {
        quantity as nat
    }
}

/// The first reason, if any, for which a sale with the given parameters cannot
/// be created at time `now`.
pub open spec fn creation_error(start: u64, duration: u64, now: u64) -> Option<PackageError> {
    if duration == 0 {
        Some(PackageError::DurationIsZero)
    } else if start + duration > u64::MAX {
        Some(PackageError::IntegerOverflow)
    } else if start + duration <= now {
        Some(PackageError::StartAndDurationInThePast)
    } else {
        None
    }
}

/// The first reason, if any, for which a purchase is turned down.
pub open spec fn purchase_error(
    sale: ContractView,
    package: u8,
    quantity: u8,
    attached_deposit: u128,
) -> Option<PackageError> {
    if !sale.is_active {
        Some(PackageError::ContractInactive)
    } else if package_price(package) is None {
        Some(PackageError::InvalidPackage)
    } else if sale.amount < package_tokens(package).unwrap() * effective_quantity(quantity) {
        Some(PackageError::InsufficientSupply)
    } else if attached_deposit != package_price(package).unwrap() * effective_quantity(quantity) {
        Some(PackageError::DepositMismatch)
    } else {
        None
    }
}

/// The sale after an accepted purchase: the tokens bought move from what is
/// left to what was claimed.
pub open spec fn after_purchase(sale: ContractView, package: u8, quantity: u8) -> ContractView {
    let bought = package_tokens(package).unwrap() * effective_quantity(quantity);
    ContractView {
        amount: (sale.amount - bought) as nat,
        amount_claimed: sale.amount_claimed + bought,
        ..sale
    }
}

/// The name of the one member of the input of the follow-up call.
pub open spec fn resolve_input_field() -> Seq<char> {
    "args"@
}

/// The input of the follow-up call of a purchase: the JSON object whose one
/// member, `args`, holds the bytes of the serialized arguments as an array of
/// numbers, in UTF-8.
pub fn resolve_transfer_input(serialized_args: &Vec<u8>) -> (input: Vec<u8>)
    ensures
        input@ == encode_utf8(json_object_text(resolve_input_field(), serialized_args@)),
{
    let text = json_object_of_bytes("args", serialized_args);
    text.as_str().as_bytes_vec()
}

/// A sale of token packages at fixed prices, out of a fixed supply.
pub struct Contract {
    owner: String,
    token: String,
    amount: u128,
    amount_claimed: u128,
    start: u64,
    duration: u64,
    is_active: bool,
}

impl View for Contract {
    type V = ContractView;

    closed spec fn view(&self) -> ContractView {
        ContractView {
            owner: self.owner@,
            token: self.token@,
            amount: self.amount as nat,
            amount_claimed: self.amount_claimed as nat,
            start: self.start as nat,
            duration: self.duration as nat,
            is_active: self.is_active,
        }
    }
}

impl Contract {
    #[verifier::type_invariant]
    spec fn inv(&self) -> bool {
        self@.well_formed()
    }

    /// Opens a sale of `amount` tokens of `token` for `owner`, from `start` for
    /// `duration`, at time `block_timestamp`. The sale must last some time and
    /// must not be over already.
    pub fn new(
        owner: String,
        token: String,
        amount: u128,
        start: u64,
        duration: u64,
        block_timestamp: u64,
    ) -> (created: Result<Contract, PackageError>)
        ensures
            match created {
                Ok(sale) => {
                    &&& creation_error(start, duration, block_timestamp) is None
                    &&& sale@ == (ContractView {
                        owner: owner@,
                        token: token@,
                        amount: amount as nat,
                        amount_claimed: 0,
                        start: start as nat,
                        duration: duration as nat,
                        is_active: true,
                    })
                    &&& sale@.well_formed()
                },
                Err(e) => creation_error(start, duration, block_timestamp) == Some(e),
            },
    {
        if duration == 0 {
            return Err(PackageError::DurationIsZero);
        }
        match start.checked_add(duration) {
            None => Err(PackageError::IntegerOverflow),
            Some(end) => {
                if end <= block_timestamp {
                    Err(PackageError::StartAndDurationInThePast)
                } else {
                    Ok(Contract { owner, token, amount, amount_claimed: 0, start, duration,
                        is_active: true })
                }
            },
        }
    }

    /// Rebuilds a sale from stored values, if they describe one.
    pub fn restore(
        owner: String,
        token: String,
        amount: u128,
        amount_claimed: u128,
        start: u64,
        duration: u64,
        is_active: bool,
    ) -> (restored: Option<Contract>)
        ensures
            restored is Some <==> (ContractView {
                owner: owner@,
                token: token@,
                amount: amount as nat,
                amount_claimed: amount_claimed as nat,
                start: start as nat,
                duration: duration as nat,
                is_active,
            }).well_formed(),
            restored matches Some(sale) ==> sale@ == (ContractView {
                owner: owner@,
                token: token@,
                amount: amount as nat,
                amount_claimed: amount_claimed as nat,
                start: start as nat,
                duration: duration as nat,
                is_active,
            }),
    {
        if duration == 0 || start.checked_add(duration).is_none() || amount.checked_add(
            amount_claimed,
        ).is_none() {
            None
        } else {
            Some(Contract { owner, token, amount, amount_claimed, start, duration, is_active })
        }
    }

    /// The account that owns the sale.
    pub fn owner(&self) -> (owner: String)
        ensures
            owner@ == self@.owner,
    {
        self.owner.clone()
    }

    /// The tokens that are left.
    pub fn amount(&self) -> (amount: u128)
        ensures
            amount == self@.amount,
    {
        self.amount
    }

    /// The ledger of the token that is sold.
    pub fn token(&self) -> (token: String)
        ensures
            token@ == self@.token,
    {
        self.token.clone()
    }

    /// The tokens that were bought so far.
    pub fn amount_claimed(&self) -> (claimed: u128)
        ensures
            claimed == self@.amount_claimed,
    {
        self.amount_claimed
    }

    /// When the sale starts.
    pub fn start(&self) -> (start: u64)
        ensures
            start == self@.start,
    {
        self.start
    }

    /// How long the sale lasts.
    pub fn duration(&self) -> (duration: u64)
        ensures
            duration == self@.duration,
    {
        self.duration
    }

    /// Whether purchases are accepted.
    pub fn is_active(&self) -> (active: bool)
        ensures
            active == self@.is_active,
    {
        self.is_active
    }

    /// Stops the sale for good. Only the owner may do so.
    pub fn deactivate(&mut self, caller: &String) -> (done: Result<(), PackageError>)
        ensures
            done is Ok <==> caller@ == old(self)@.owner,
            done is Err ==> done == Err::<(), PackageError>(PackageError::NotOwner)
                && final(self)@ == old(self)@,
            done is Ok ==> final(self)@ == (ContractView { is_active: false, ..old(self)@ }),
    {
        proof {
            use_type_invariant(&*self);
        }
        if *caller == self.owner {
            self.is_active = false;
            Ok(())
        } else {
            Err(PackageError::NotOwner)
        }
    }

    /// The transfer of `token_amount` tokens of the sale's token to `owner_id`.
    pub fn transfer(&self, owner_id: String, token_amount: u128) -> (call: FtTransferCall)
        ensures
            call.token@ == self@.token,
            call.receiver_id@ == owner_id@,
            call.amount == token_amount,
            call.memo is None,
            call.attached_deposit == FT_TRANSFER_DEPOSIT,
            call.gas == GAS_FOR_FT_TRANSFER,
    {
        FtTransferCall {
            token: self.token.clone(),
            receiver_id: owner_id,
            amount: token_amount,
            memo: None,
            attached_deposit: FT_TRANSFER_DEPOSIT,
            gas: GAS_FOR_FT_TRANSFER,
        }
    }

    /// The registration of `predecessor` with the sale's token, paid for with
    /// the whole attached deposit.
    pub fn storage_deposit(&self, predecessor: String, attached_deposit: u128) -> (call:
        StorageDepositCall)
        ensures
            call.token@ == self@.token,
            call.account_id@ == predecessor@,
            call.attached_deposit == attached_deposit,
    {
        StorageDepositCall { token: self.token.clone(), account_id: predecessor, attached_deposit }
    }

    /// Sells `quantity` packages of kind `package` to `predecessor`, who has
    /// attached `attached_deposit`. A quantity of zero counts as one. The
    /// purchase is accepted when the sale is active, the package exists, enough
    /// tokens are left and the deposit is exactly the price; the tokens then
    /// move from what is left to what was claimed. Otherwise nothing changes.
    pub fn buy(
        &mut self,
        package: u8,
        quantity: u8,
        predecessor: String,
        attached_deposit: u128,
    ) -> (bought: Result<BuyOutcome, PackageError>)
        ensures
            match bought {
                Ok(outcome) => {
                    &&& purchase_error(old(self)@, package, quantity, attached_deposit) is None
                    &&& final(self)@ == after_purchase(old(self)@, package, quantity)
                    &&& final(self)@.well_formed()
                    &&& outcome.transfer.token@ == old(self)@.token
                    &&& outcome.transfer.receiver_id@ == predecessor@
                    &&& outcome.transfer.amount == package_tokens(package).unwrap()
                        * effective_quantity(quantity)
                    &&& outcome.transfer.memo is None
                    &&& outcome.transfer.attached_deposit == FT_TRANSFER_DEPOSIT
                    &&& outcome.transfer.gas == GAS_FOR_FT_TRANSFER
                    &&& outcome.resolve.predecessor@ == predecessor@
                    &&& outcome.resolve.initial_balance == attached_deposit
                    &&& outcome.resolve_gas == GAS_FOR_RESOLVE_TRANSFER
                },
                Err(e) => {
                    &&& purchase_error(old(self)@, package, quantity, attached_deposit) == Some(e)
                    &&& final(self)@ == old(self)@
                },
            },
    {
        proof {
            use_type_invariant(&*self);
        }
        if !self.is_active {
            return Err(PackageError::ContractInactive);
        }
        let count: u128 = if quantity == 0 {
            1
        } else {
            quantity as u128
        };
        let (token_price, token_amount): (u128, u128) = if package == 1 {
            (PACKAGE_ONE_PRICE, PACKAGE_ONE_TOKENS)
        } else if package == 2 {
            (PACKAGE_TWO_PRICE, PACKAGE_TWO_TOKENS)
        } else if package == 3 {
            (PACKAGE_THREE_PRICE, PACKAGE_THREE_TOKENS)
        } else {
            return Err(PackageError::InvalidPackage);
        };
        assert(token_price * count <= PACKAGE_THREE_PRICE * 255) by (nonlinear_arith)
            requires
                token_price <= PACKAGE_THREE_PRICE,
                count <= 255,
        ;
        assert(token_amount * count <= PACKAGE_THREE_TOKENS * 255) by (nonlinear_arith)
            requires
                token_amount <= PACKAGE_THREE_TOKENS,
                count <= 255,
        ;
        let total_price: u128 = token_price * count;
        let total_amount: u128 = token_amount * count;
        if self.amount < total_amount {
            return Err(PackageError::InsufficientSupply);
        }
        if attached_deposit != total_price {
            return Err(PackageError::DepositMismatch);
        }
        self.amount = self.amount - total_amount;
        self.amount_claimed = self.amount_claimed + total_amount;
        let transfer = self.transfer(predecessor.clone(), total_amount);
        Ok(
            BuyOutcome {
                transfer,
                resolve: ResolveTransferArgs { predecessor, initial_balance: attached_deposit },
                resolve_gas: GAS_FOR_RESOLVE_TRANSFER,
            },
        )
    }

    /// What is owed once the transfer of a purchase has ended: the deposit goes
    /// back to the buyer when the transfer failed, and nothing is owed when it
    /// went through.
    pub fn resolve_transfer(args: ResolveTransferArgs, transfer_failed: bool) -> (refund: Option<
        Refund,
    >)
        ensures
            refund is Some <==> transfer_failed,
            refund matches Some(r) ==> r.receiver_id@ == args.predecessor@ && r.amount
                == args.initial_balance,
    {
        if transfer_failed {
            Some(Refund { receiver_id: args.predecessor, amount: args.initial_balance })
        } else {
            None
        }
    }
}

} // verus!
