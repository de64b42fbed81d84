use vstd::prelude::*;
use crate::store::{AssocMap, StoreKey};

verus! {

pub type AccountId = u64;

pub type BlockNumber = u64;

pub type DomainName = Vec<u8>;

pub type DomainAddr = Vec<u8>;

/// How many blocks a bid stays open after it is placed.
pub const AUCTION_PERIOD: u64 = 10;

/// How many blocks past the end of its auction a won name stays owned.
pub const OWNERSHIP_PERIOD: u64 = 1000;

/// The settled ownership record of a name.
#[derive(Debug, Clone, PartialEq, Eq)]
pub struct DomainDetail {
    pub owner: AccountId,
    pub expire: BlockNumber,
    pub addr: Option<DomainAddr>,
}

pub struct DomainDetailView {
    pub owner: AccountId,
    pub expire: BlockNumber,
    pub addr: Option<Seq<u8>>,
}

pub open spec fn addr_view(a: Option<DomainAddr>) -> Option<Seq<u8>> {
    match a {
        Some(v) => Some(v@),
        None => None,
    }
}

impl View for DomainDetail {
    type V = DomainDetailView;

    open spec fn view(&self) -> DomainDetailView {
        DomainDetailView { owner: self.owner, expire: self.expire, addr: addr_view(self.addr) }
    }
}

/// An offer for a name.
#[derive(Debug, Clone, PartialEq, Eq)]
pub struct Bid {
    pub bidder: AccountId,
    pub name: DomainName,
    pub amount: u128,
}

pub struct BidView {
    pub bidder: AccountId,
    pub name: Seq<u8>,
    pub amount: u128,
}

impl View for Bid {
    type V = BidView;

    open spec fn view(&self) -> BidView {
        BidView { bidder: self.bidder, name: self.name@, amount: self.amount }
    }
}

/// The best pending bid for a name, with the height at which its auction ends.
#[derive(Debug, Clone, PartialEq, Eq)]
pub struct BidInfo {
    pub bid: Bid,
    pub end: BlockNumber,
}

pub struct BidInfoView {
    pub bid: BidView,
    pub end: BlockNumber,
}

impl View for BidInfo {
    type V = BidInfoView;

    open spec fn view(&self) -> BidInfoView {
        BidInfoView { bid: self.bid@, end: self.end }
    }
}

/// Why a registry operation was refused.
#[derive(Debug, Clone, Copy, PartialEq, Eq, Structural)]
pub enum DomainError {
    BidTooLow,
    NotOwner,
    DomainNotFound,
}

/// The names recorded for one account, in the order they were recorded.
struct NameList {
    names: Vec<DomainName>,
}

impl View for NameList {
    type V = Seq<Seq<u8>>;

    closed spec fn view(&self) -> Seq<Seq<u8>> {
        self.names@.map_values(|n: DomainName| n@)
    }
}

impl NameList {
    fn contains(&self, name: &DomainName) -> (r: bool)
        ensures
            r == self@.contains(name@),
    {
        let mut i: usize = 0;
        while i < self.names.len()
            invariant
                0 <= i <= self.names@.len(),
                forall|j: int| 0 <= j < i ==> self@[j] != name@,
            decreases self.names@.len() - i,
        {
            if self.names[i].same_key(name) {
                assert(self@[i as int] == name@);
                return true;
            }
            i = i + 1;
        }
        false
    }

    /// Drops the first occurrence of `name`, keeping the others in order.
    fn remove_name(&mut self, name: &DomainName)
        ensures
            final(self)@ == old(self)@.remove_value(name@),
    {
        let ghost pre = self@;
        proof {
            pre.index_of_first_ensures(name@);
        }
        let mut i: usize = 0;
        while i < self.names.len()
            invariant
                self@ == pre,
                pre == old(self)@,
                0 <= i <= self.names@.len(),
                forall|j: int| 0 <= j < i ==> self@[j] != name@,
            decreases self.names@.len() - i,
        {
            if self.names[i].same_key(name) {
                assert(self@[i as int] == name@);
                proof {
                    assert(pre[i as int] == name@);
                    assert(pre.contains(name@));
                    pre.index_of_first_ensures(name@);
                    let f = pre.index_of_first(name@)->Some_0;
                    if f < i {
                        assert(pre[f] != name@);
                    }
                    if f > i {
                        assert(pre[i as int] != name@);
                    }
                    assert(pre.remove_value(name@) == pre.remove(i as int));
                }
                self.names.remove(i);
                assert(self@ =~= pre.remove(i as int));
                return;
            }
            i = i + 1;
        }
        proof {
            pre.index_of_first_ensures(name@);
        }
        assert(!pre.contains(name@));
    }
}

/// The abstract state of the registry: settled records, the reverse index
/// from accounts to names, and pending bids.
pub struct DomainServiceView {
    pub domains: Map<Seq<u8>, DomainDetailView>,
    pub owners: Map<AccountId, Seq<Seq<u8>>>,
    pub bids: Map<Seq<u8>, BidInfoView>,
}

/// The reverse index is exact: an account lists precisely the names whose
/// record names it as owner.
pub open spec fn owner_index_exact(s: DomainServiceView) -> bool {
    &&& forall|n: Seq<u8>| #[trigger]
        s.domains.contains_key(n) ==> s.owners.contains_key(s.domains[n].owner)
            && s.owners[s.domains[n].owner].contains(n)
    &&& forall|a: AccountId, n: Seq<u8>|
        s.owners.contains_key(a) && #[trigger] s.owners[a].contains(n) ==> s.domains.contains_key(
            n,
        ) && s.domains[n].owner == a
}

proof fn lemma_exact_at(s: DomainServiceView, a: AccountId, n: Seq<u8>)
    requires
        owner_index_exact(s),
    ensures
        (s.owners.contains_key(a) && s.owners[a].contains(n)) <==> (s.domains.contains_key(n)
            && s.domains[n].owner == a),
{
    if s.domains.contains_key(n) && s.domains[n].owner == a {
        assert(s.owners[a].contains(n));
    }
}

/// The invariant of every reachable registry state.
///
/// Each pending bid is stored under its own name, and its auction end leaves
/// room for the ownership period. Each owner's list holds no name twice, and
/// the reverse index is exact.
pub open spec fn registry_valid(s: DomainServiceView) -> bool {
    &&& forall|n: Seq<u8>| #[trigger]
        s.bids.contains_key(n) ==> s.bids[n].bid.name == n && s.bids[n].end <= u64::MAX
            - OWNERSHIP_PERIOD
    &&& forall|a: AccountId| #[trigger]
        s.owners.contains_key(a) ==> s.owners[a].no_duplicates()
    &&& owner_index_exact(s)
}

/// The record that settling or updating `name` would write, before the caller
/// is checked: from a pending bid if there is one, else the current record.
pub open spec fn candidate(s: DomainServiceView, name: Seq<u8>) -> Option<DomainDetailView> {
    if s.bids.contains_key(name) {
        Some(
            DomainDetailView {
                owner: s.bids[name].bid.bidder,
                expire: (s.bids[name].end + OWNERSHIP_PERIOD) as u64,
                addr: None,
            },
        )
    } else if s.domains.contains_key(name) {
        Some(s.domains[name])
    } else {
        None
    }
}

/// An owner's list after `name` is recorded for it: appended unless present.
pub open spec fn listed(s: DomainServiceView, who: AccountId, name: Seq<u8>) -> Seq<Seq<u8>> {
    if !s.owners.contains_key(who) {
        seq![name]
    } else if s.owners[who].contains(name) {
        s.owners[who]
    } else {
        s.owners[who].push(name)
    }
}

/// The index after `name` passes to `who`: an account other than `who` that
/// owned it drops it from its list, the rest of which keeps its order.
pub open spec fn released(s: DomainServiceView, who: AccountId, name: Seq<u8>) -> Map<
    AccountId,
    Seq<Seq<u8>>,
> {
    if s.domains.contains_key(name) && s.domains[name].owner != who && s.owners.contains_key(
        s.domains[name].owner,
    ) {
        let prev = s.domains[name].owner;
        s.owners.insert(prev, s.owners[prev].remove_value(name))
    } else {
        s.owners
    }
}

/// The state after a successful settlement or update of `name` by its owner
/// `who`, whose record then has expiry `expire` and address `addr`.
pub open spec fn after_update(
    s: DomainServiceView,
    who: AccountId,
    name: Seq<u8>,
    expire: BlockNumber,
    addr: Option<Seq<u8>>,
) -> DomainServiceView {
    DomainServiceView {
        domains: s.domains.insert(name, DomainDetailView { owner: who, expire, addr }),
        owners: released(s, who, name).insert(who, listed(s, who, name)),
        bids: s.bids.remove(name),
    }
}

/// Recording `name` for `who` keeps every name the list already had, adds
/// `name`, and keeps the list free of repetition.
proof fn lemma_listed(s: DomainServiceView, who: AccountId, name: Seq<u8>)
    requires
        s.owners.contains_key(who) ==> s.owners[who].no_duplicates(),
    ensures
        listed(s, who, name).contains(name),
        listed(s, who, name).no_duplicates(),
        forall|n: Seq<u8>| #[trigger]
            listed(s, who, name).contains(n) <==> (n == name || (s.owners.contains_key(who)
                && s.owners[who].contains(n))),
{
    let l = listed(s, who, name);
    if !s.owners.contains_key(who) {
        assert(l[0] == name);
    } else if s.owners[who].contains(name) {
    } else {
        let o = s.owners[who];
        assert(l[o.len() as int] == name);
        assert forall|n: Seq<u8>| #[trigger] l.contains(n) <==> (n == name || o.contains(n)) by {
            if o.contains(n) {
                let i = choose|i: int| 0 <= i < o.len() && o[i] == n;
                assert(l[i] == n);
            }
        }
    }
}

/// Dropping `name` from a list without repetition leaves exactly the other
/// names, still without repetition.
proof fn lemma_remove_value(l: Seq<Seq<u8>>, name: Seq<u8>)
    requires
        l.no_duplicates(),
    ensures
        l.remove_value(name).no_duplicates(),
        forall|n: Seq<u8>| #[trigger]
            l.remove_value(name).contains(n) <==> (l.contains(n) && n != name),
{
    l.index_of_first_ensures(name);
    let r = l.remove_value(name);
    match l.index_of_first(name) {
        None => {},
        Some(i) => {
            assert(r =~= l.remove(i));
            assert forall|a: int, b: int| 0 <= a < b < r.len() implies r[a] != r[b] by {
                let a2 = if a < i { a } else { a + 1 };
                let b2 = if b < i { b } else { b + 1 };
                assert(r[a] == l[a2]);
                assert(r[b] == l[b2]);
            }
            assert forall|n: Seq<u8>| #[trigger] r.contains(n) <==> (l.contains(n) && n != name) by {
                if r.contains(n) {
                    let j = choose|j: int| 0 <= j < r.len() && r[j] == n;
                    let j2 = if j < i { j } else { j + 1 };
                    assert(l[j2] == n);
                    assert(j2 != i);
                }
                if l.contains(n) && n != name {
                    let j = choose|j: int| 0 <= j < l.len() && l[j] == n;
                    assert(j != i);
                    let j2 = if j < i { j } else { j - 1 };
                    assert(r[j2] == n);
                }
            }
        },
    }
}

/// A successful settlement or update keeps the registry valid: in particular
/// the reverse index stays exact, also when the name passes from one account
/// to another.
pub proof fn lemma_after_update_valid(
    s: DomainServiceView,
    who: AccountId,
    name: Seq<u8>,
    expire: BlockNumber,
    addr: Option<Seq<u8>>,
)
    requires
        registry_valid(s),
    ensures
        registry_valid(after_update(s, who, name, expire, addr)),
        owner_index_exact(after_update(s, who, name, expire, addr)),
{
    let t = after_update(s, who, name, expire, addr);
    lemma_listed(s, who, name);
    let moved = s.domains.contains_key(name) && s.domains[name].owner != who;
    let prev = s.domains[name].owner;
    if moved {
        lemma_exact_at(s, prev, name);
        lemma_remove_value(s.owners[prev], name);
    }
    assert forall|a: AccountId| #[trigger] t.owners.contains_key(a) implies t.owners[a].no_duplicates() by {
        if a != who && moved && a == prev {
        } else if a != who {
            assert(t.owners[a] == s.owners[a]);
        }
    }
    assert forall|a: AccountId, n: Seq<u8>|
        (t.owners.contains_key(a) && #[trigger] t.owners[a].contains(n)) <==> (
        t.domains.contains_key(n) && t.domains[n].owner == a) by {
        if a == who {
            if n != name && s.domains.contains_key(n) && s.domains[n].owner == a {
                lemma_exact_at(s, a, n);
            }
            if n != name && s.owners.contains_key(a) && s.owners[a].contains(n) {
                lemma_exact_at(s, a, n);
            }
        } else if moved && a == prev {
            if n != name && s.domains.contains_key(n) && s.domains[n].owner == a {
                lemma_exact_at(s, a, n);
            }
            if s.owners[a].contains(n) {
                lemma_exact_at(s, a, n);
            }
        } else {
            assert(t.owners.contains_key(a) == s.owners.contains_key(a));
            if s.owners.contains_key(a) {
                assert(t.owners[a] == s.owners[a]);
            }
            if s.owners.contains_key(a) && s.owners[a].contains(n) {
                lemma_exact_at(s, a, n);
            }
            if n != name && s.domains.contains_key(n) && s.domains[n].owner == a {
                lemma_exact_at(s, a, n);
            }
        }
    }
}

/// The outcome of a bid of `amount` on `name` by `who` at height `now`: the
/// new state, or why the bid is refused.
pub open spec fn after_bid(
    s: DomainServiceView,
    who: AccountId,
    name: Seq<u8>,
    amount: u128,
    now: BlockNumber,
) -> Result<DomainServiceView, DomainError> {
    if s.bids.contains_key(name) && amount <= s.bids[name].bid.amount {
        Err(DomainError::BidTooLow)
    } else {
        Ok(
            DomainServiceView {
                domains: s.domains,
                owners: s.owners,
                bids: s.bids.insert(
                    name,
                    BidInfoView {
                        bid: BidView { bidder: who, name, amount },
                        end: (now + AUCTION_PERIOD) as u64,
                    },
                ),
            },
        )
    }
}

/// The outcome of settling or updating `name` by `who` with address `addr`:
/// the new state, or why the call is refused.
pub open spec fn after_settle(
    s: DomainServiceView,
    who: AccountId,
    name: Seq<u8>,
    addr: Option<Seq<u8>>,
) -> Result<DomainServiceView, DomainError> {
    match candidate(s, name) {
        None => Err(DomainError::DomainNotFound),
        Some(c) => if c.owner != who {
            Err(DomainError::NotOwner)
        } else {
            Ok(after_update(s, who, name, c.expire, addr))
        },
    }
}

/// After a bid on a name, a second bid that is not larger is refused, and a
/// larger one becomes the name's only pending bid, with its auction ending
/// `AUCTION_PERIOD` blocks after the second bid's height.
pub proof fn lemma_higher_bid_replaces(
    s: DomainServiceView,
    a: AccountId,
    b: AccountId,
    name: Seq<u8>,
    x: u128,
    y: u128,
    h1: BlockNumber,
    h2: BlockNumber,
)
    requires
        after_bid(s, a, name, x, h1) is Ok,
        h2 <= u64::MAX - AUCTION_PERIOD - OWNERSHIP_PERIOD,
    ensures
        ({
            let s1 = after_bid(s, a, name, x, h1)->Ok_0;
            &&& y <= x ==> after_bid(s1, b, name, y, h2) == Err::<DomainServiceView, DomainError>(
                DomainError::BidTooLow,
            )
            &&& y > x ==> after_bid(s1, b, name, y, h2) is Ok
            &&& y > x ==> after_bid(s1, b, name, y, h2)->Ok_0.bids[name] == (BidInfoView {
                bid: BidView { bidder: b, name, amount: y },
                end: (h2 + AUCTION_PERIOD) as u64,
            })
            &&& y > x ==> after_bid(s1, b, name, y, h2)->Ok_0.bids.dom() == s1.bids.dom()
            &&& y > x ==> after_bid(s1, b, name, y, h2)->Ok_0.bids[name].end == h2 + AUCTION_PERIOD
        }),
{
    let s1 = after_bid(s, a, name, x, h1)->Ok_0;
    if y > x {
        let t = after_bid(s1, b, name, y, h2)->Ok_0;
        assert(t.bids.dom() =~= s1.bids.dom());
    }
}

/// When the first bidder on a name is not outbid, a later bid that is not
/// larger is refused, and settling then gives the name to the first bidder
/// alone: the other account is refused as not the owner.
pub proof fn lemma_unbeaten_bidder_settles(
    s: DomainServiceView,
    a: AccountId,
    b: AccountId,
    name: Seq<u8>,
    x: u128,
    y: u128,
    h1: BlockNumber,
    h2: BlockNumber,
    addr: Option<Seq<u8>>,
)
    requires
        after_bid(s, a, name, x, h1) is Ok,
        a != b,
        y <= x,
    ensures
        ({
            let s1 = after_bid(s, a, name, x, h1)->Ok_0;
            &&& after_bid(s1, b, name, y, h2) == Err::<DomainServiceView, DomainError>(
                DomainError::BidTooLow,
            )
            &&& after_settle(s1, b, name, addr) == Err::<DomainServiceView, DomainError>(
                DomainError::NotOwner,
            )
            &&& after_settle(s1, a, name, addr) is Ok
            &&& after_settle(s1, a, name, addr)->Ok_0.domains[name].owner == a
            &&& !after_settle(s1, a, name, addr)->Ok_0.bids.contains_key(name)
        }),
{
}

/// `block_number` advanced by `by` blocks.
pub fn add_block_number_by(block_number: BlockNumber, by: u64) -> (r: BlockNumber)
    requires
        block_number + by <= u64::MAX,
    ensures
        r == block_number + by,
{
    block_number + by
}

/// The name registry with its open auctions.
pub struct DomainService {
    domains: AssocMap<DomainName, DomainDetail>,
    owners: AssocMap<AccountId, NameList>,
    bids: AssocMap<DomainName, BidInfo>,
}

impl View for DomainService {
    type V = DomainServiceView;

    closed spec fn view(&self) -> DomainServiceView {
        DomainServiceView { domains: self.domains@, owners: self.owners@, bids: self.bids@ }
    }
}

impl DomainService {
    /// The stores are well formed and the state is valid.
    pub closed spec fn wf(&self) -> bool {
        &&& self.domains.wf()
        &&& self.owners.wf()
        &&& self.bids.wf()
        &&& registry_valid(self@)
    }

    /// Every reachable state is valid.
    pub proof fn lemma_valid(&self)
        requires
            self.wf(),
        ensures
            registry_valid(self@),
            owner_index_exact(self@),
    {
    }

    /// The names that have a record, in storage order.
    pub closed spec fn record_names(&self) -> Seq<Seq<u8>> {
        self.domains.key_seq()
    }

    /// The names that have a pending bid, in storage order.
    pub closed spec fn bid_names(&self) -> Seq<Seq<u8>> {
        self.bids.key_seq()
    }

    /// No name has two records or two pending bids: each stored name appears
    /// once, and the stored names are exactly those the model maps.
    pub proof fn lemma_one_entry_per_name(&self)
        requires
            self.wf(),
        ensures
            self.record_names().no_duplicates(),
            self.record_names().to_set() == self@.domains.dom(),
            self.bid_names().no_duplicates(),
            self.bid_names().to_set() == self@.bids.dom(),
    {
        self.domains.lemma_one_entry_per_key();
        self.bids.lemma_one_entry_per_key();
    }

    /// An empty registry: no records, no index entries, no bids.
    pub fn new() -> (r: Self)
        ensures
            r.wf(),
            r@.domains == Map::<Seq<u8>, DomainDetailView>::empty(),
            r@.owners == Map::<AccountId, Seq<Seq<u8>>>::empty(),
            r@.bids == Map::<Seq<u8>, BidInfoView>::empty(),
    {
        DomainService { domains: AssocMap::new(), owners: AssocMap::new(), bids: AssocMap::new() }
    }

    /// The settled record of `name`, if any.
    pub fn domains(&self, name: &DomainName) -> (r: Option<&DomainDetail>)
        requires
            self.wf(),
        ensures
            match r {
                Some(d) => self@.domains.contains_key(name@) && d@ == self@.domains[name@],
                None => !self@.domains.contains_key(name@),
            },
    {
        self.domains.get(name)
    }

    /// The names recorded for `who`, if any.
    pub fn owners(&self, who: AccountId) -> (r: Option<&Vec<DomainName>>)
        requires
            self.wf(),
        ensures
            match r {
                Some(l) => self@.owners.contains_key(who) && l@.map_values(|n: DomainName| n@)
                    == self@.owners[who],
                None => !self@.owners.contains_key(who),
            },
    {
        match self.owners.get(&who) {
            Some(l) => Some(&l.names),
            None => None,
        }
    }

    /// Places a bid of `amount` on `name` for `who` at height `now`.
    ///
    /// Refused with `BidTooLow` when a pending bid for the name is at least as
    /// large; otherwise the bid replaces any pending one and its auction ends
    /// `AUCTION_PERIOD` blocks after `now`. Records and the index are untouched.
    /// Heights must leave room for the auction and ownership periods.
    pub fn bid(&mut self, who: AccountId, name: DomainName, amount: u128, now: BlockNumber) -> (r:
        Result<(), DomainError>)
        requires
            old(self).wf(),
            now <= u64::MAX - AUCTION_PERIOD - OWNERSHIP_PERIOD,
        ensures
            final(self).wf(),
            match after_bid(old(self)@, who, name@, amount, now) {
                Ok(t) => r == Ok::<(), DomainError>(()) && final(self)@ == t,
                Err(e) => r == Err::<(), DomainError>(e) && final(self)@ == old(self)@,
            },
    {
        if let Some(info) = self.bids.get(&name) {
            if amount <= info.bid.amount {
                return Err(DomainError::BidTooLow);
            }
        }
        let end = add_block_number_by(now, AUCTION_PERIOD);
        let key = name.clone();
        assert(key@ == name@);
        self.bids.insert(key, BidInfo { bid: Bid { bidder: who, name, amount }, end });
        Ok(())
    }

    /// Settles the pending bid on `name`, or updates its record, on behalf of
    /// `who`, setting the record's address to `addr`.
    ///
    /// With a pending bid the record goes to the bidder, expiring
    /// `OWNERSHIP_PERIOD` blocks after the auction's end, and the bid is
    /// consumed; the auction's end is not compared with the current height.
    /// Without one the existing record keeps its owner and expiry. Either way
    /// `who` must be that owner (`NotOwner`), a record or bid must exist
    /// (`DomainNotFound`), the name is recorded for the owner in the index,
    /// an account that owned it before drops it from its list, and a refused
    /// call changes nothing.
    pub fn update(&mut self, who: AccountId, name: DomainName, addr: Option<DomainAddr>) -> (r:
        Result<(), DomainError>)
        requires
            old(self).wf(),
        ensures
            final(self).wf(),
            match after_settle(old(self)@, who, name@, addr_view(addr)) {
                Ok(t) => r == Ok::<(), DomainError>(()) && final(self)@ == t,
                Err(e) => r == Err::<(), DomainError>(e) && final(self)@ == old(self)@,
            },
    {
        let ghost pre = self@;
        let expire: BlockNumber;
        match self.bids.get(&name) {
            Some(info) => {
                if info.bid.bidder != who {
                    return Err(DomainError::NotOwner);
                }
                expire = add_block_number_by(info.end, OWNERSHIP_PERIOD);
            },
            None => match self.domains.get(&name) {
                Some(d) => {
                    if d.owner != who {
                        return Err(DomainError::NotOwner);
                    }
                    expire = d.expire;
                },
                None => {
                    return Err(DomainError::DomainNotFound);
                },
            },
        }
        let _ = self.bids.remove(&name);
        let mut previous: Option<AccountId> = None;
        if let Some(d) = self.domains.get(&name) {
            if d.owner != who {
                previous = Some(d.owner);
            }
        }
        if let Some(prev) = previous {
            if let Some(mut dropped) = self.owners.remove(&prev) {
                dropped.remove_name(&name);
                self.owners.insert(prev, dropped);
            }
        }
        assert(self@.owners =~= released(pre, who, name@));
        let ghost mid = self@.owners;
        let mut list = match self.owners.remove(&who) {
            Some(l) => l,
            None => NameList { names: Vec::new() },
        };
        if !list.contains(&name) {
            let entry = name.clone();
            assert(entry@ == name@);
            list.names.push(entry);
            assert(list@ =~= mid[who].push(name@) || list@ =~= seq![name@]);
        }
        self.owners.insert(who, list);
        self.domains.insert(name, DomainDetail { owner: who, expire, addr });
        proof {
            assert(self@.owners =~= released(pre, who, name@).insert(who, listed(pre, who, name@)));
            assert(self@ == after_update(pre, who, name@, expire, addr_view(addr)));
            lemma_after_update_valid(pre, who, name@, expire, addr_view(addr));
        }
        Ok(())
    }

    /// The pending bid for `name`, if any.
    pub fn bids(&self, name: &DomainName) -> (r: Option<&BidInfo>)
        requires
            self.wf(),
        ensures
            match r {
                Some(b) => self@.bids.contains_key(name@) && b@ == self@.bids[name@],
                None => !self@.bids.contains_key(name@),
            },
    {
        self.bids.get(name)
    }
}

} // verus!
