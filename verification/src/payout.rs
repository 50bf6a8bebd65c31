use vstd::prelude::*;

verus! {

/// The most recipients that a royalty specification may name.
pub const MAX_ROYALTY_RECIPIENTS: usize = 10;

/// The number of basis points that make up the whole price.
pub const BASIS_POINTS_TOTAL: u32 = 10_000;

/// Why no payout could be computed.
#[derive(Clone, Copy, Debug, PartialEq, Eq)]
pub enum PayoutError {
    /// The royalty specification names too many recipients, names one twice,
    /// names one with an empty id, or gives away more than the whole price.
    InvalidRoyaltySpec,
    /// A share cannot be computed within 128 bits.
    AmountOverflow,
}

/// One entry of a royalty specification: a recipient and its share of the
/// price, in basis points.
#[derive(Debug, PartialEq, Eq)]
pub struct RoyaltyShare {
    pub recipient_id: String,
    pub basis_points: u32,
}

/// [`RoyaltyShare`] as plain values.
pub struct RoyaltyView {
    pub recipient_id: Seq<char>,
    pub basis_points: nat,
}

impl View for RoyaltyShare {
    type V = RoyaltyView;

    open spec fn view(&self) -> RoyaltyView {
        RoyaltyView { recipient_id: self.recipient_id@, basis_points: self.basis_points as nat }
    }
}

/// One leg of a payout: a recipient and the amount it is paid.
#[derive(Debug, PartialEq, Eq)]
pub struct PayoutLeg {
    pub recipient_id: String,
    pub amount_minor: u128,
}

/// [`PayoutLeg`] as plain values.
pub struct PayoutLegView {
    pub recipient_id: Seq<char>,
    pub amount_minor: nat,
}

impl View for PayoutLeg {
    type V = PayoutLegView;

    open spec fn view(&self) -> PayoutLegView {
        PayoutLegView { recipient_id: self.recipient_id@, amount_minor: self.amount_minor as nat }
    }
}

impl PayoutLeg {
    /// A copy of the leg.
    pub fn duplicate(&self) -> (copy: PayoutLeg)
        ensures
            copy@ == self@,
    {
        PayoutLeg { recipient_id: self.recipient_id.clone(), amount_minor: self.amount_minor }
    }
}

/// The split of a price: one leg for each royalty recipient, in the order of
/// the specification, and the seller's leg, which takes what is left.
#[derive(Debug, PartialEq, Eq)]
pub struct Payout {
    pub royalties: Vec<PayoutLeg>,
    pub seller: PayoutLeg,
}

/// [`Payout`] as plain values.
pub struct PayoutView {
    pub royalties: Seq<PayoutLegView>,
    pub seller: PayoutLegView,
}

/// The legs of a list as plain values.
pub open spec fn leg_views(legs: Seq<PayoutLeg>) -> Seq<PayoutLegView> {
    legs.map_values(|leg: PayoutLeg| leg@)
}

/// The shares of a list as plain values.
pub open spec fn share_views(shares: Seq<RoyaltyShare>) -> Seq<RoyaltyView> {
    shares.map_values(|share: RoyaltyShare| share@)
}

impl View for Payout {
    type V = PayoutView;

    open spec fn view(&self) -> PayoutView {
        PayoutView { royalties: leg_views(self.royalties@), seller: self.seller@ }
    }
}

impl Payout {
    /// A copy of the payout.
    pub fn duplicate(&self) -> (copy: Payout)
        ensures
            copy@ == self@,
    {
        let mut royalties: Vec<PayoutLeg> = Vec::new();
        let mut i: usize = 0;
        while i < self.royalties.len()
            invariant
                i <= self.royalties.len(),
                leg_views(royalties@) == leg_views(self.royalties@).subrange(0, i as int),
            decreases self.royalties.len() - i,
        {
            let ghost before = leg_views(royalties@);
            royalties.push(self.royalties[i].duplicate());
            assert(leg_views(royalties@) =~= before.push(self.royalties[i as int]@));
            i += 1;
            assert(leg_views(royalties@) =~= leg_views(self.royalties@).subrange(0, i as int));
        }
        assert(leg_views(royalties@) =~= leg_views(self.royalties@));
        Payout { royalties, seller: self.seller.duplicate() }
    }

    /// Whether the payout hands out exactly `price_minor`.
    pub fn hands_out(&self, price_minor: u128) -> (exact: bool)
        ensures
            exact == conserves(self@, price_minor as nat),
    {
        let ghost legs = leg_views(self.royalties@);
        let mut total: u128 = self.seller.amount_minor;
        let mut i: usize = 0;
        while i < self.royalties.len()
            invariant
                i <= self.royalties.len(),
                legs == leg_views(self.royalties@),
                total == self.seller.amount_minor + legs_total(legs.subrange(0, i as int)),
            decreases self.royalties.len() - i,
        {
            proof {
                lemma_legs_total_prefix(legs, i + 1);
                assert(legs.subrange(0, i + 1).drop_last() =~= legs.subrange(0, i as int));
            }
            match total.checked_add(self.royalties[i].amount_minor) {
                Some(sum) => {
                    total = sum;
                },
                None => {
                    return false;
                },
            }
            i += 1;
        }
        assert(legs.subrange(0, i as int) =~= legs);
        total == price_minor
    }
}

/// The basis points of a royalty specification, added up.
pub open spec fn total_basis_points(shares: Seq<RoyaltyView>) -> nat
    decreases shares.len(),
{
    if shares.len() == 0 {
        0
    } else {
        total_basis_points(shares.drop_last()) + shares.last().basis_points
    }
}

/// The amounts of a list of legs, added up.
pub open spec fn legs_total(legs: Seq<PayoutLegView>) -> nat
    decreases legs.len(),
{
    if legs.len() == 0 {
        0
    } else {
        legs_total(legs.drop_last()) + legs.last().amount_minor
    }
}

/// Whether no two entries of the specification name the same recipient.
pub open spec fn distinct_recipients(shares: Seq<RoyaltyView>) -> bool {
    forall|i: int, j: int|
        0 <= i < j < shares.len() ==> (#[trigger] shares[i]).recipient_id != (
        #[trigger] shares[j]).recipient_id
}

/// A royalty specification is valid when it names at most
/// [`MAX_ROYALTY_RECIPIENTS`] recipients, each with an id that is not empty,
/// none of them twice, and gives away at most the whole price.
pub open spec fn valid_royalty_spec(shares: Seq<RoyaltyView>) -> bool {
    &&& shares.len() <= MAX_ROYALTY_RECIPIENTS
    &&& forall|i: int| 0 <= i < shares.len() ==> (#[trigger] shares[i]).recipient_id.len() > 0
    &&& distinct_recipients(shares)
    &&& total_basis_points(shares) <= BASIS_POINTS_TOTAL
}

/// The share of `price` that `basis_points` stand for, rounded down.
pub open spec fn share_of(price: nat, basis_points: nat) -> nat {
    price * basis_points / (BASIS_POINTS_TOTAL as nat)
}

/// Whether the product of the price and some entry's basis points does not
/// fit in 128 bits.
pub open spec fn share_overflows(price: nat, shares: Seq<RoyaltyView>) -> bool {
    exists|i: int| 0 <= i < shares.len() && price * (#[trigger] shares[i]).basis_points > u128::MAX
}

/// The royalty legs of a sale at `price`: for each entry of the
/// specification, in order, its recipient and its share.
pub open spec fn royalty_legs(price: nat, shares: Seq<RoyaltyView>) -> Seq<PayoutLegView> {
    Seq::new(
        shares.len(),
        |i: int|
            PayoutLegView {
                recipient_id: shares[i].recipient_id,
                amount_minor: share_of(price, shares[i].basis_points),
            },
    )
}

/// The payout of a sale at `price`: the royalty legs, and for the seller what
/// they leave of the price.
pub open spec fn payout_for(price: nat, shares: Seq<RoyaltyView>, seller_id: Seq<char>) -> PayoutView {
    PayoutView {
        royalties: royalty_legs(price, shares),
        seller: PayoutLegView {
            recipient_id: seller_id,
            amount_minor: (price - legs_total(royalty_legs(price, shares))) as nat,
        },
    }
}

/// What [`compute`] returns: the specification is checked first, then the
/// size of the products.
pub open spec fn compute_result(price: nat, shares: Seq<RoyaltyView>, seller_id: Seq<char>) -> Result<
    PayoutView,
    PayoutError,
> {
    if !valid_royalty_spec(shares) {
        Err(PayoutError::InvalidRoyaltySpec)
    } else if share_overflows(price, shares) {
        Err(PayoutError::AmountOverflow)
    } else {
        Ok(payout_for(price, shares, seller_id))
    }
}

/// Whether a payout hands out exactly `price`.
pub open spec fn conserves(payout: PayoutView, price: nat) -> bool {
    legs_total(payout.royalties) + payout.seller.amount_minor == price
}

proof fn lemma_total_basis_points_prefix(shares: Seq<RoyaltyView>, n: int)
    requires
        0 <= n <= shares.len(),
    ensures
        total_basis_points(shares.subrange(0, n)) <= total_basis_points(shares),
    decreases shares.len() - n,
{
    if n < shares.len() {
        lemma_total_basis_points_prefix(shares, n + 1);
        assert(shares.subrange(0, n + 1).drop_last() =~= shares.subrange(0, n));
    } else {
        assert(shares.subrange(0, n) =~= shares);
    }
}

proof fn lemma_share_bound(price: nat, basis_points: nat)
    ensures
        share_of(price, basis_points) * 10000 <= price * basis_points,
{
    let p = price * basis_points;
    assert(p / 10000 * 10000 <= p) by (nonlinear_arith)
        requires
            p >= 0,
    ;
}

proof fn lemma_legs_bound(price: nat, shares: Seq<RoyaltyView>, n: int)
    requires
        0 <= n <= shares.len(),
    ensures
        legs_total(royalty_legs(price, shares).subrange(0, n)) * 10000 <= price * total_basis_points(
            shares.subrange(0, n),
        ),
    decreases n,
{
    let legs = royalty_legs(price, shares);
    if n > 0 {
        lemma_legs_bound(price, shares, n - 1);
        assert(legs.subrange(0, n).drop_last() =~= legs.subrange(0, n - 1));
        assert(shares.subrange(0, n).drop_last() =~= shares.subrange(0, n - 1));
        lemma_share_bound(price, shares[n - 1].basis_points);
        let a = legs_total(legs.subrange(0, n - 1));
        let b = total_basis_points(shares.subrange(0, n - 1));
        let s = share_of(price, shares[n - 1].basis_points);
        let bp = shares[n - 1].basis_points;
        assert((a + s) * 10000 <= price * (b + bp)) by (nonlinear_arith)
            requires
                a * 10000 <= price * b,
                s * 10000 <= price * bp,
        ;
    } else {
        assert(price * 0 == 0) by (nonlinear_arith);
    }
}

/// The royalty legs of a specification that gives away at most the whole
/// price add up to at most the price.
pub proof fn lemma_royalties_within_price(price: nat, shares: Seq<RoyaltyView>)
    requires
        total_basis_points(shares) <= BASIS_POINTS_TOTAL,
    ensures
        legs_total(royalty_legs(price, shares)) <= price,
{
    let n = shares.len() as int;
    lemma_legs_bound(price, shares, n);
    assert(shares.subrange(0, n) =~= shares);
    assert(royalty_legs(price, shares).subrange(0, n) =~= royalty_legs(price, shares));
    let t = legs_total(royalty_legs(price, shares));
    let b = total_basis_points(shares);
    assert(t <= price) by (nonlinear_arith)
        requires
            t * 10000 <= price * b,
            b <= 10000,
            t >= 0,
            price >= 0,
    ;
}

/// Conservation: whenever a payout is computed, the royalty legs and the
/// seller's leg add up to the price exactly, and the seller's leg names the
/// seller.
pub proof fn lemma_payout_conserves(price: nat, shares: Seq<RoyaltyView>, seller_id: Seq<char>)
    requires
        compute_result(price, shares, seller_id) is Ok,
    ensures
        conserves(compute_result(price, shares, seller_id).unwrap(), price),
        compute_result(price, shares, seller_id).unwrap().seller.recipient_id == seller_id,
        legs_total(compute_result(price, shares, seller_id).unwrap().royalties) <= price,
{
    lemma_royalties_within_price(price, shares);
}

/// With no royalties the seller is paid the whole price.
pub proof fn lemma_payout_without_royalties(price: nat, seller_id: Seq<char>)
    ensures
        compute_result(price, Seq::empty(), seller_id) == Ok::<PayoutView, PayoutError>(
            PayoutView {
                royalties: Seq::empty(),
                seller: PayoutLegView { recipient_id: seller_id, amount_minor: price },
            },
        ),
{
    let shares = Seq::<RoyaltyView>::empty();
    assert(royalty_legs(price, shares) =~= Seq::empty());
}

fn check_royalty_spec(royalty_spec: &Vec<RoyaltyShare>) -> (valid: bool)
    ensures
        valid == valid_royalty_spec(share_views(royalty_spec@)),
{
    let ghost shares = share_views(royalty_spec@);
    if royalty_spec.len() > MAX_ROYALTY_RECIPIENTS {
        return false;
    }
    let mut total: u64 = 0;
    let mut i: usize = 0;
    while i < royalty_spec.len()
        invariant
            i <= royalty_spec.len() <= MAX_ROYALTY_RECIPIENTS,
            shares == share_views(royalty_spec@),
            total == total_basis_points(shares.subrange(0, i as int)),
            total <= BASIS_POINTS_TOTAL,
            forall|k: int| 0 <= k < i ==> (#[trigger] shares[k]).recipient_id.len() > 0,
            distinct_recipients(shares.subrange(0, i as int)),
        decreases royalty_spec.len() - i,
    {
        if royalty_spec[i].recipient_id.as_str().is_empty() {
            assert(shares[i as int].recipient_id.len() == 0);
            return false;
        }
        let mut j: usize = 0;
        while j < i
            invariant
                j <= i < royalty_spec.len(),
                shares == share_views(royalty_spec@),
                forall|k: int| 0 <= k < j
                    ==> (#[trigger] shares[k]).recipient_id != shares[i as int].recipient_id,
            decreases i - j,
        {
            if royalty_spec[j].recipient_id == royalty_spec[i].recipient_id {
                assert(shares[j as int].recipient_id == shares[i as int].recipient_id);
                return false;
            }
            j += 1;
        }
        assert(shares.subrange(0, i + 1).drop_last() =~= shares.subrange(0, i as int));
        assert(distinct_recipients(shares.subrange(0, i + 1))) by {
            let next = shares.subrange(0, i + 1);
            let prev = shares.subrange(0, i as int);
            assert forall|a: int, b: int| 0 <= a < b < next.len()
                implies (#[trigger] next[a]).recipient_id != (
            #[trigger] next[b]).recipient_id by {
                if b < i {
                    assert(prev[a] == next[a] && prev[b] == next[b]);
                } else {
                    assert(next[a] == shares[a] && next[b] == shares[i as int]);
                }
            }
        }
        total = total + royalty_spec[i].basis_points as u64;
        i += 1;
        if total > BASIS_POINTS_TOTAL as u64 {
            proof {
                lemma_total_basis_points_prefix(shares, i as int);
            }
            return false;
        }
    }
    assert(shares.subrange(0, i as int) =~= shares);
    true
}

/// Splits `agreed_price_minor` among the recipients of `royalty_spec` and the
/// seller. Each recipient is paid its share of the price, rounded down; the
/// seller is paid what is left, so that the payout hands out the price
/// exactly. An invalid specification is refused with
/// [`PayoutError::InvalidRoyaltySpec`]; otherwise, a product of the price and
/// an entry's basis points that does not fit in 128 bits is refused with
/// [`PayoutError::AmountOverflow`].
pub fn compute(agreed_price_minor: u128, royalty_spec: &Vec<RoyaltyShare>,
    seller_id: &String) -> (computed:
    Result<Payout, PayoutError>)
    ensures
        match computed {
            Ok(payout) => {
                &&& compute_result(
                    agreed_price_minor as nat,
                    share_views(royalty_spec@),
                    seller_id@,
                ) == Ok::<PayoutView, PayoutError>(payout@)
                &&& conserves(payout@, agreed_price_minor as nat)
            },
            Err(e) => compute_result(agreed_price_minor as nat, share_views(royalty_spec@), seller_id@)
                == Err::<PayoutView, PayoutError>(e),
        },
{
    let ghost shares = share_views(royalty_spec@);
    let ghost price = agreed_price_minor as nat;
    let ghost legs = royalty_legs(price, shares);
    if !check_royalty_spec(royalty_spec) {
        return Err(PayoutError::InvalidRoyaltySpec);
    }
    proof {
        lemma_royalties_within_price(price, shares);
    }
    let mut royalties: Vec<PayoutLeg> = Vec::new();
    let mut paid: u128 = 0;
    let mut i: usize = 0;
    while i < royalty_spec.len()
        invariant
            i <= royalty_spec.len(),
            shares == share_views(royalty_spec@),
            price == agreed_price_minor,
            legs == royalty_legs(price, shares),
            valid_royalty_spec(shares),
            legs_total(legs) <= price,
            leg_views(royalties@) == legs.subrange(0, i as int),
            paid == legs_total(legs.subrange(0, i as int)),
            forall|k: int| 0 <= k < i ==> price * (#[trigger] shares[k]).basis_points <= u128::MAX,
        decreases royalty_spec.len() - i,
    {
        let product: u128 = match agreed_price_minor.checked_mul(royalty_spec[i].basis_points as u128) {
            Some(product) => product,
            None => {
                assert(price * shares[i as int].basis_points > u128::MAX);
                return Err(PayoutError::AmountOverflow);
            },
        };
        let share: u128 = product / (BASIS_POINTS_TOTAL as u128);
        assert(share == legs[i as int].amount_minor);
        proof {
            lemma_legs_total_prefix(legs, i + 1);
            assert(legs.subrange(0, i + 1).drop_last() =~= legs.subrange(0, i as int));
        }
        let ghost before = leg_views(royalties@);
        let leg = PayoutLeg { recipient_id: royalty_spec[i].recipient_id.clone(), amount_minor: share };
        assert(leg@ == legs[i as int]);
        royalties.push(leg);
        assert(leg_views(royalties@) =~= before.push(legs[i as int]));
        paid = paid + share;
        i += 1;
        assert(leg_views(royalties@) =~= legs.subrange(0, i as int));
    }
    assert(legs.subrange(0, i as int) =~= legs);
    assert(!share_overflows(price, shares));
    let payout = Payout {
        royalties,
        seller: PayoutLeg { recipient_id: seller_id.clone(), amount_minor: agreed_price_minor - paid },
    };
    Ok(payout)
}

proof fn lemma_legs_total_prefix(legs: Seq<PayoutLegView>, n: int)
    requires
        0 <= n <= legs.len(),
    ensures
        legs_total(legs.subrange(0, n)) <= legs_total(legs),
    decreases legs.len() - n,
{
    if n < legs.len() {
        lemma_legs_total_prefix(legs, n + 1);
        assert(legs.subrange(0, n + 1).drop_last() =~= legs.subrange(0, n));
    } else {
        assert(legs.subrange(0, n) =~= legs);
    }
}

} // verus!
