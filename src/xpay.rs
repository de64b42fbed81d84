use vstd::prelude::*;
use crate::codec::{decode_account, le_u64};
use crate::domain_service::{AccountId, DomainName, DomainService, DomainServiceView};
use crate::store::AssocMap;

verus! {

pub type AssetId = u32;

pub type Balance = u128;

pub type ItemId = u64;

/// What an item costs: an amount of one asset per unit.
#[derive(Debug, Clone, Copy, PartialEq, Eq, Structural)]
pub struct Price {
    pub asset_id: AssetId,
    pub amount: Balance,
}

impl View for Price {
    type V = Price;

    open spec fn view(&self) -> Price {
        *self
    }
}

/// Why a marketplace operation was refused.
#[derive(Debug, Clone, Copy, PartialEq, Eq, Structural)]
pub enum XPayError {
    NotOwner,
    DomainNotFound,
    DomainNotPublished,
    InvalidAddress,
    ItemNotFound,
    InsufficientQuantity,
    NoPrice,
    NoOwner,
    PriceOverflow,
    SlippageExceeded,
    IdSpaceExhausted,
    PaymentFailed,
}

/// A payment to carry out: a ledger transfer when the payer pays in the asset
/// the payee asks for, else a swap that delivers exactly `buy_amount` of
/// `asset_bought` for at most `max_paying_amount` of `asset_sold`.
#[derive(Debug, Clone, Copy, PartialEq, Eq, Structural)]
pub enum Payment {
    Transfer { asset_id: AssetId, from: AccountId, to: AccountId, amount: Balance },
    Swap {
        buyer: AccountId,
        recipient: AccountId,
        asset_sold: AssetId,
        asset_bought: AssetId,
        buy_amount: Balance,
        max_paying_amount: Balance,
    },
}

/// Whether a payment may go ahead once the swap service has said how much
/// of the sold asset it needs: a swap that needs more than its cap is
/// refused; a transfer moves its fixed amount whatever the cap.
pub open spec fn paying_check(p: Payment, needed: Balance) -> Result<(), XPayError> {
    match p {
        Payment::Transfer { .. } => Ok(()),
        Payment::Swap { max_paying_amount, .. } => if needed > max_paying_amount {
            Err(XPayError::SlippageExceeded)
        } else {
            Ok(())
        },
    }
}

impl Payment {
    /// Decides whether this payment may go ahead when `needed` of the sold
    /// asset must be paid.
    pub fn check_paying_amount(&self, needed: Balance) -> (r: Result<(), XPayError>)
        ensures
            r == paying_check(*self, needed),
    {
        match self {
            Payment::Transfer { .. } => Ok(()),
            Payment::Swap { max_paying_amount, .. } => {
                if needed > *max_paying_amount {
                    Err(XPayError::SlippageExceeded)
                } else {
                    Ok(())
                }
            },
        }
    }
}

/// A purchase that has passed every check and awaits its payment.
#[derive(Debug, Clone, Copy, PartialEq, Eq, Structural)]
pub struct Purchase {
    pub item_id: ItemId,
    pub quantity: u32,
    pub new_quantity: u32,
    pub payment: Payment,
}

/// `who` owns `name` in the registry.
pub open spec fn owner_check(d: DomainServiceView, name: Seq<u8>, who: AccountId) -> Result<
    (),
    XPayError,
> {
    if !d.domains.contains_key(name) {
        Err(XPayError::DomainNotFound)
    } else if d.domains[name].owner != who {
        Err(XPayError::NotOwner)
    } else {
        Ok(())
    }
}

/// The account that the address published for `name` designates.
pub open spec fn resolved(d: DomainServiceView, name: Seq<u8>) -> Result<AccountId, XPayError> {
    if !d.domains.contains_key(name) {
        Err(XPayError::DomainNotFound)
    } else {
        match d.domains[name].addr {
            None => Err(XPayError::DomainNotPublished),
            Some(a) => if a.len() < 8 {
                Err(XPayError::InvalidAddress)
            } else {
                Ok(le_u64(a) as u64)
            },
        }
    }
}

/// The payment that sends exactly `to_amount` of `to_asset` to the account
/// behind `to_domain`, paid by `from` in `from_asset` with cap `from_amount`.
pub open spec fn payment_for(
    d: DomainServiceView,
    from: AccountId,
    from_asset: AssetId,
    from_amount: Balance,
    to_domain: Seq<u8>,
    to_asset: AssetId,
    to_amount: Balance,
) -> Result<Payment, XPayError> {
    match resolved(d, to_domain) {
        Err(e) => Err(e),
        Ok(to) => if from_asset == to_asset {
            Ok(Payment::Transfer { asset_id: from_asset, from, to, amount: to_amount })
        } else {
            Ok(
                Payment::Swap {
                    buyer: from,
                    recipient: to,
                    asset_sold: from_asset,
                    asset_bought: to_asset,
                    buy_amount: to_amount,
                    max_paying_amount: from_amount,
                },
            )
        },
    }
}

/// Checks that `who` owns `domain`.
pub fn ensure_owner(domains: &DomainService, domain: &DomainName, who: AccountId) -> (r: Result<
    (),
    XPayError,
>)
    requires
        domains.wf(),
    ensures
        r == owner_check(domains@, domain@, who),
{
    match domains.domains(domain) {
        None => Err(XPayError::DomainNotFound),
        Some(d) => if d.owner == who {
            Ok(())
        } else {
            Err(XPayError::NotOwner)
        },
    }
}

/// Finds the account behind the address that `domain` publishes.
pub fn resolve_domain(domains: &DomainService, domain: &DomainName) -> (r: Result<
    AccountId,
    XPayError,
>)
    requires
        domains.wf(),
    ensures
        r == resolved(domains@, domain@),
{
    match domains.domains(domain) {
        None => Err(XPayError::DomainNotFound),
        Some(d) => match &d.addr {
            None => Err(XPayError::DomainNotPublished),
            Some(a) => match decode_account(a.as_slice()) {
                None => Err(XPayError::InvalidAddress),
                Some(to) => Ok(to),
            },
        },
    }
}

/// Decides how `from` pays exactly `to_amount` of `to_asset` to `to_domain`:
/// by transfer when the assets agree, where the cap `from_amount` plays no
/// part, else by a swap capped at `from_amount`.
pub fn make_transfer(
    domains: &DomainService,
    from: AccountId,
    from_asset: AssetId,
    from_amount: Balance,
    to_domain: &DomainName,
    to_asset: AssetId,
    to_amount: Balance,
) -> (r: Result<Payment, XPayError>)
    requires
        domains.wf(),
    ensures
        r == payment_for(domains@, from, from_asset, from_amount, to_domain@, to_asset, to_amount),
{
    let to = match resolve_domain(domains, to_domain) {
        Err(e) => return Err(e),
        Ok(to) => to,
    };
    if from_asset == to_asset {
        Ok(Payment::Transfer { asset_id: from_asset, from, to, amount: to_amount })
    } else {
        Ok(
            Payment::Swap {
                buyer: from,
                recipient: to,
                asset_sold: from_asset,
                asset_bought: to_asset,
                buy_amount: to_amount,
                max_paying_amount: from_amount,
            },
        )
    }
}

/// The abstract state of the marketplace.
pub struct XPayView {
    pub items: Map<ItemId, Seq<u8>>,
    pub item_owners: Map<ItemId, Seq<u8>>,
    pub item_quantities: Map<ItemId, u32>,
    pub item_prices: Map<ItemId, Price>,
    pub next_item_id: ItemId,
}

/// Every created item has an owning name and a price, and its id lies below
/// the counter, so the counter never hands out an id twice.
pub open spec fn market_valid(s: XPayView) -> bool {
    &&& s.item_owners.dom() == s.items.dom()
    &&& s.item_prices.dom() == s.items.dom()
    &&& forall|id: ItemId| #[trigger] s.items.contains_key(id) ==> id < s.next_item_id
}

/// The stock of an item; zero where none was ever recorded.
pub open spec fn quantity_of(s: XPayView, id: ItemId) -> u32 {
    if s.item_quantities.contains_key(id) {
        s.item_quantities[id]
    } else {
        0
    }
}

/// The outcome of asking to buy `quantity` units of item `item_id` for `who`,
/// paying in `paying_asset_id` with cap `max_total_paying_amount`.
pub open spec fn purchase_for(
    s: XPayView,
    d: DomainServiceView,
    who: AccountId,
    quantity: u32,
    item_id: ItemId,
    paying_asset_id: AssetId,
    max_total_paying_amount: Balance,
) -> Result<Purchase, XPayError> {
    if quantity > quantity_of(s, item_id) {
        Err(XPayError::InsufficientQuantity)
    } else if !s.item_prices.contains_key(item_id) {
        Err(XPayError::NoPrice)
    } else if !s.item_owners.contains_key(item_id) {
        Err(XPayError::NoOwner)
    } else if s.item_prices[item_id].amount * quantity > u128::MAX {
        Err(XPayError::PriceOverflow)
    } else {
        match payment_for(
            d,
            who,
            paying_asset_id,
            max_total_paying_amount,
            s.item_owners[item_id],
            s.item_prices[item_id].asset_id,
            (s.item_prices[item_id].amount * quantity) as u128,
        ) {
            Err(e) => Err(e),
            Ok(p) => Ok(
                Purchase {
                    item_id,
                    quantity,
                    new_quantity: (quantity_of(s, item_id) - quantity) as u32,
                    payment: p,
                },
            ),
        }
    }
}

/// A purchase is refused for want of stock exactly when more units are asked
/// for than are in stock; an accepted one leaves the stock less the units
/// bought.
pub proof fn lemma_purchase_stock(
    s: XPayView,
    d: DomainServiceView,
    who: AccountId,
    quantity: u32,
    item_id: ItemId,
    paying_asset_id: AssetId,
    max_total_paying_amount: Balance,
)
    ensures
        (purchase_for(s, d, who, quantity, item_id, paying_asset_id, max_total_paying_amount)
            == Err::<Purchase, XPayError>(XPayError::InsufficientQuantity)) <==> quantity
            > quantity_of(s, item_id),
        purchase_for(s, d, who, quantity, item_id, paying_asset_id, max_total_paying_amount) is Ok
            ==> purchase_for(
            s,
            d,
            who,
            quantity,
            item_id,
            paying_asset_id,
            max_total_paying_amount,
        )->Ok_0.new_quantity == quantity_of(s, item_id) - quantity,
{
}

/// Paying in the asset of the price moves exactly the price times the units
/// bought, by transfer to the seller, whatever the cap; the cap never stops
/// such a payment.
pub proof fn lemma_same_asset_exact(
    s: XPayView,
    d: DomainServiceView,
    who: AccountId,
    quantity: u32,
    item_id: ItemId,
    max_total_paying_amount: Balance,
    needed: Balance,
)
    requires
        s.item_prices.contains_key(item_id),
        purchase_for(
            s,
            d,
            who,
            quantity,
            item_id,
            s.item_prices[item_id].asset_id,
            max_total_paying_amount,
        ) is Ok,
    ensures
        ({
            let p = purchase_for(
                s,
                d,
                who,
                quantity,
                item_id,
                s.item_prices[item_id].asset_id,
                max_total_paying_amount,
            )->Ok_0.payment;
            &&& p is Transfer
            &&& p->Transfer_amount == s.item_prices[item_id].amount * quantity
            &&& p->Transfer_from == who
            &&& paying_check(p, needed) is Ok
        }),
{
}

/// Paying in another asset goes through a swap that must deliver the price
/// times the units bought, capped at the caller's maximum; it is refused with
/// `SlippageExceeded` whenever it would need more than that maximum.
pub proof fn lemma_cross_asset_slippage(
    s: XPayView,
    d: DomainServiceView,
    who: AccountId,
    quantity: u32,
    item_id: ItemId,
    paying_asset_id: AssetId,
    max_total_paying_amount: Balance,
    needed: Balance,
)
    requires
        s.item_prices.contains_key(item_id),
        paying_asset_id != s.item_prices[item_id].asset_id,
        purchase_for(s, d, who, quantity, item_id, paying_asset_id, max_total_paying_amount) is Ok,
        needed > max_total_paying_amount,
    ensures
        ({
            let p = purchase_for(
                s,
                d,
                who,
                quantity,
                item_id,
                paying_asset_id,
                max_total_paying_amount,
            )->Ok_0.payment;
            &&& p is Swap
            &&& p->Swap_buy_amount == s.item_prices[item_id].amount * quantity
            &&& p->Swap_max_paying_amount == max_total_paying_amount
            &&& paying_check(p, needed) == Err::<(), XPayError>(XPayError::SlippageExceeded)
        }),
{
}

/// The item catalog with its stock, prices and id counter.
pub struct XPay {
    items: AssocMap<ItemId, Vec<u8>>,
    item_owners: AssocMap<ItemId, DomainName>,
    item_quantities: AssocMap<ItemId, u32>,
    item_prices: AssocMap<ItemId, Price>,
    next_item_id: ItemId,
}

impl View for XPay {
    type V = XPayView;

    closed spec fn view(&self) -> XPayView {
        XPayView {
            items: self.items@,
            item_owners: self.item_owners@,
            item_quantities: self.item_quantities@,
            item_prices: self.item_prices@,
            next_item_id: self.next_item_id,
        }
    }
}

impl XPay {
    /// The stores are well formed and the state is valid.
    pub closed spec fn wf(&self) -> bool {
        &&& self.items.wf()
        &&& self.item_owners.wf()
        &&& self.item_quantities.wf()
        &&& self.item_prices.wf()
        &&& market_valid(self@)
    }

    /// Every reachable state is valid.
    pub proof fn lemma_valid(&self)
        requires
            self.wf(),
        ensures
            market_valid(self@),
    {
    }

    /// An empty catalog whose first item will get id `next_item_id`.
    pub fn with_next_item_id(next_item_id: ItemId) -> (r: Self)
        ensures
            r.wf(),
            r@.items == Map::<ItemId, Seq<u8>>::empty(),
            r@.item_owners == Map::<ItemId, Seq<u8>>::empty(),
            r@.item_quantities == Map::<ItemId, u32>::empty(),
            r@.item_prices == Map::<ItemId, Price>::empty(),
            r@.next_item_id == next_item_id,
    {
        let r = XPay {
            items: AssocMap::new(),
            item_owners: AssocMap::new(),
            item_quantities: AssocMap::new(),
            item_prices: AssocMap::new(),
            next_item_id,
        };
        assert(r@.items.dom() =~= r@.item_owners.dom());
        assert(r@.items.dom() =~= r@.item_prices.dom());
        r
    }

    /// An empty catalog whose first item will get id zero.
    pub fn new() -> (r: Self)
        ensures
            r.wf(),
            r@.items == Map::<ItemId, Seq<u8>>::empty(),
            r@.item_owners == Map::<ItemId, Seq<u8>>::empty(),
            r@.item_quantities == Map::<ItemId, u32>::empty(),
            r@.item_prices == Map::<ItemId, Price>::empty(),
            r@.next_item_id == 0,
    {
        Self::with_next_item_id(0)
    }

    /// Lists `item` under `domain` for its owner `who`, with `quantity` units
    /// in stock at `price_amount` of `price_asset_id` each.
    ///
    /// Refused when `who` does not own `domain`, or when the counter has
    /// reached its last value, which is never handed out; a refused call
    /// changes nothing. The new item's id is the counter, which then advances.
    pub fn create_item(
        &mut self,
        domains: &DomainService,
        who: AccountId,
        domain: DomainName,
        quantity: u32,
        item: Vec<u8>,
        price_asset_id: AssetId,
        price_amount: Balance,
    ) -> (r: Result<ItemId, XPayError>)
        requires
            old(self).wf(),
            domains.wf(),
        ensures
            final(self).wf(),
            owner_check(domains@, domain@, who) is Err ==> r == Err::<ItemId, XPayError>(
                owner_check(domains@, domain@, who)->Err_0,
            ) && final(self)@ == old(self)@,
            owner_check(domains@, domain@, who) is Ok && old(self)@.next_item_id == u64::MAX ==> r
                == Err::<ItemId, XPayError>(XPayError::IdSpaceExhausted) && final(self)@ == old(
                self)@,
            owner_check(domains@, domain@, who) is Ok && old(self)@.next_item_id < u64::MAX ==> r
                == Ok::<ItemId, XPayError>(old(self)@.next_item_id) && final(self)@ == (XPayView {
                items: old(self)@.items.insert(old(self)@.next_item_id, item@),
                item_owners: old(self)@.item_owners.insert(old(self)@.next_item_id, domain@),
                item_quantities: old(self)@.item_quantities.insert(
                    old(self)@.next_item_id,
                    quantity,
                ),
                item_prices: old(self)@.item_prices.insert(
                    old(self)@.next_item_id,
                    Price { asset_id: price_asset_id, amount: price_amount },
                ),
                next_item_id: (old(self)@.next_item_id + 1) as u64,
            }),
    {
        let item_id = self.next_item_id;
        match ensure_owner(domains, &domain, who) {
            Err(e) => return Err(e),
            Ok(()) => {},
        }
        let next_item_id = match item_id.checked_add(1) {
            None => return Err(XPayError::IdSpaceExhausted),
            Some(n) => n,
        };
        let ghost pre = self@;
        self.next_item_id = next_item_id;
        self.items.insert(item_id, item);
        self.item_owners.insert(item_id, domain);
        self.item_quantities.insert(item_id, quantity);
        self.item_prices.insert(item_id, Price { asset_id: price_asset_id, amount: price_amount });
        assert(self@.items.dom() =~= self@.item_owners.dom());
        assert(self@.items.dom() =~= self@.item_prices.dom());
        Ok(item_id)
    }

    /// Adds `quantity` units to the stock of `item_id`, saturating at the
    /// largest count; returns the new stock. The item need not exist.
    pub fn add_item(&mut self, item_id: ItemId, quantity: u32) -> (r: u32)
        requires
            old(self).wf(),
        ensures
            final(self).wf(),
            r as int == if quantity_of(old(self)@, item_id) + quantity > u32::MAX {
                u32::MAX as int
            } else {
                quantity_of(old(self)@, item_id) + quantity
            },
            final(self)@ == (XPayView {
                item_quantities: old(self)@.item_quantities.insert(item_id, r),
                ..old(self)@
            }),
    {
        let current = self.item_quantity(item_id);
        let q = current.saturating_add(quantity);
        self.item_quantities.insert(item_id, q);
        q
    }

    /// Takes `quantity` units from the stock of `item_id`, stopping at zero;
    /// returns the new stock. The item need not exist.
    pub fn remove_item(&mut self, item_id: ItemId, quantity: u32) -> (r: u32)
        requires
            old(self).wf(),
        ensures
            final(self).wf(),
            r as int == if quantity > quantity_of(old(self)@, item_id) {
                0
            } else {
                quantity_of(old(self)@, item_id) - quantity
            },
            final(self)@ == (XPayView {
                item_quantities: old(self)@.item_quantities.insert(item_id, r),
                ..old(self)@
            }),
    {
        let current = self.item_quantity(item_id);
        let q = current.saturating_sub(quantity);
        self.item_quantities.insert(item_id, q);
        q
    }

    /// Sets the stock and the price of an existing item; `ItemNotFound`, with
    /// nothing changed, when there is no such item.
    pub fn update_item(
        &mut self,
        item_id: ItemId,
        quantity: u32,
        price_asset_id: AssetId,
        price_amount: Balance,
    ) -> (r: Result<(), XPayError>)
        requires
            old(self).wf(),
        ensures
            final(self).wf(),
            !old(self)@.items.contains_key(item_id) ==> r == Err::<(), XPayError>(
                XPayError::ItemNotFound,
            ) && final(self)@ == old(self)@,
            old(self)@.items.contains_key(item_id) ==> r == Ok::<(), XPayError>(()) && final(self)@ == (XPayView {
                item_quantities: old(self)@.item_quantities.insert(item_id, quantity),
                item_prices: old(self)@.item_prices.insert(
                    item_id,
                    Price { asset_id: price_asset_id, amount: price_amount },
                ),
                ..old(self)@
            }),
    {
        if !self.items.contains_key(&item_id) {
            return Err(XPayError::ItemNotFound);
        }
        self.item_quantities.insert(item_id, quantity);
        self.item_prices.insert(item_id, Price { asset_id: price_asset_id, amount: price_amount });
        assert(self@.items.dom() =~= self@.item_prices.dom());
        Ok(())
    }

    /// Checks a purchase of `quantity` units of `item_id` by `who`, paying in
    /// `paying_asset_id` with cap `max_total_paying_amount`, and decides its
    /// payment to the account behind the item's owning name. Nothing changes
    /// until the payment is reported with `settle_purchase`.
    pub fn purchase_item(
        &self,
        domains: &DomainService,
        who: AccountId,
        quantity: u32,
        item_id: ItemId,
        paying_asset_id: AssetId,
        max_total_paying_amount: Balance,
    ) -> (r: Result<Purchase, XPayError>)
        requires
            self.wf(),
            domains.wf(),
        ensures
            r == purchase_for(
                self@,
                domains@,
                who,
                quantity,
                item_id,
                paying_asset_id,
                max_total_paying_amount,
            ),
    {
        let current = self.item_quantity(item_id);
        let new_quantity = match current.checked_sub(quantity) {
            None => return Err(XPayError::InsufficientQuantity),
            Some(q) => q,
        };
        let price = match self.item_prices.get(&item_id) {
            None => return Err(XPayError::NoPrice),
            Some(p) => *p,
        };
        let seller = match self.item_owners.get(&item_id) {
            None => return Err(XPayError::NoOwner),
            Some(n) => n,
        };
        let total = match price.amount.checked_mul(quantity as u128) {
            None => return Err(XPayError::PriceOverflow),
            Some(t) => t,
        };
        let payment = match make_transfer(
            domains,
            who,
            paying_asset_id,
            max_total_paying_amount,
            seller,
            price.asset_id,
            total,
        ) {
            Err(e) => return Err(e),
            Ok(p) => p,
        };
        Ok(Purchase { item_id, quantity, new_quantity, payment })
    }

    /// Completes `purchase` once its payment has been carried out with the
    /// outcome `paid`: on success the item's stock becomes the purchase's new
    /// stock, without looking again; on failure the error is passed on and
    /// nothing changes.
    pub fn settle_purchase(&mut self, purchase: &Purchase, paid: Result<(), XPayError>) -> (r:
        Result<(), XPayError>)
        requires
            old(self).wf(),
        ensures
            final(self).wf(),
            r == paid,
            paid is Err ==> final(self)@ == old(self)@,
            paid is Ok ==> final(self)@ == (XPayView {
                item_quantities: old(self)@.item_quantities.insert(
                    purchase.item_id,
                    purchase.new_quantity,
                ),
                ..old(self)@
            }),
    {
        if paid.is_ok() {
            self.item_quantities.insert(purchase.item_id, purchase.new_quantity);
        }
        paid
    }

    /// Decides the payment of a direct transfer from `who` to `to_domain`; it
    /// touches no item.
    pub fn transfer(
        domains: &DomainService,
        who: AccountId,
        from_asset: AssetId,
        from_amount: Balance,
        to_domain: &DomainName,
        to_asset: AssetId,
        to_amount: Balance,
    ) -> (r: Result<Payment, XPayError>)
        requires
            domains.wf(),
        ensures
            r == payment_for(domains@, who, from_asset, from_amount, to_domain@, to_asset, to_amount),
    {
        make_transfer(domains, who, from_asset, from_amount, to_domain, to_asset, to_amount)
    }

    /// The stock of `item_id`; zero where none was recorded.
    pub fn item_quantity(&self, item_id: ItemId) -> (r: u32)
        requires
            self.wf(),
        ensures
            r == quantity_of(self@, item_id),
    {
        match self.item_quantities.get(&item_id) {
            Some(q) => *q,
            None => 0,
        }
    }

    /// The payload of `item_id`, if it exists.
    pub fn item(&self, item_id: ItemId) -> (r: Option<&Vec<u8>>)
        requires
            self.wf(),
        ensures
            match r {
                Some(v) => self@.items.contains_key(item_id) && v@ == self@.items[item_id],
                None => !self@.items.contains_key(item_id),
            },
    {
        self.items.get(&item_id)
    }

    /// The name that owns `item_id`, if it exists.
    pub fn item_owner(&self, item_id: ItemId) -> (r: Option<&DomainName>)
        requires
            self.wf(),
        ensures
            match r {
                Some(v) => self@.item_owners.contains_key(item_id) && v@
                    == self@.item_owners[item_id],
                None => !self@.item_owners.contains_key(item_id),
            },
    {
        self.item_owners.get(&item_id)
    }

    /// The price of `item_id`, if it has one.
    pub fn item_price(&self, item_id: ItemId) -> (r: Option<Price>)
        requires
            self.wf(),
        ensures
            match r {
                Some(v) => self@.item_prices.contains_key(item_id) && v
                    == self@.item_prices[item_id],
                None => !self@.item_prices.contains_key(item_id),
            },
    {
        match self.item_prices.get(&item_id) {
            Some(p) => Some(*p),
            None => None,
        }
    }

    /// The id the next created item will get.
    pub fn next_item_id(&self) -> (r: ItemId)
        ensures
            r == self@.next_item_id,
    {
        self.next_item_id
    }
}

} // verus!
