use domain_xpay::{
    add_block_number_by, DomainError, DomainService, AUCTION_PERIOD, OWNERSHIP_PERIOD,
};

fn name(s: &str) -> Vec<u8> {
    s.as_bytes().to_vec()
}

#[test]
fn bid_equal_amount_is_too_low_and_higher_replaces() {
    let mut d = DomainService::new();
    assert_eq!(d.bid(1, name("alice.x"), 100, 0), Ok(()));
    assert_eq!(d.bid(2, name("alice.x"), 100, 1), Err(DomainError::BidTooLow));
    let kept = d.bids(&name("alice.x")).unwrap();
    assert_eq!(kept.bid.bidder, 1);
    assert_eq!(kept.bid.amount, 100);
    assert_eq!(d.bid(2, name("alice.x"), 150, 3), Ok(()));
    let best = d.bids(&name("alice.x")).unwrap();
    assert_eq!(best.bid.bidder, 2);
    assert_eq!(best.bid.name, name("alice.x"));
    assert_eq!(best.bid.amount, 150);
    assert_eq!(best.end, 13);
}

#[test]
fn lower_bid_is_refused() {
    let mut d = DomainService::new();
    assert_eq!(d.bid(1, name("n"), 50, 0), Ok(()));
    assert_eq!(d.bid(2, name("n"), 49, 0), Err(DomainError::BidTooLow));
    assert_eq!(d.bids(&name("n")).unwrap().bid.amount, 50);
}

#[test]
fn bids_on_other_names_are_independent() {
    let mut d = DomainService::new();
    assert_eq!(d.bid(1, name("a"), 100, 0), Ok(()));
    assert_eq!(d.bid(2, name("b"), 1, 0), Ok(()));
    assert_eq!(d.bids(&name("b")).unwrap().bid.amount, 1);
}

#[test]
fn auction_ends_after_period() {
    let mut d = DomainService::new();
    assert_eq!(d.bid(7, name("x"), 0, 42), Ok(()));
    assert_eq!(d.bids(&name("x")).unwrap().end, 42 + AUCTION_PERIOD);
    assert_eq!(AUCTION_PERIOD, 10);
    assert_eq!(OWNERSHIP_PERIOD, 1000);
}

#[test]
fn block_number_advances_exactly() {
    assert_eq!(add_block_number_by(5, 10), 15);
    assert_eq!(add_block_number_by(0, 0), 0);
    assert_eq!(add_block_number_by(u64::MAX - 1, 1), u64::MAX);
}

#[test]
fn settlement_gives_name_to_bidder() {
    let mut d = DomainService::new();
    assert_eq!(d.bid(1, name("alice.x"), 100, 5), Ok(()));
    assert_eq!(d.update(1, name("alice.x"), Some(vec![9u8])), Ok(()));
    let rec = d.domains(&name("alice.x")).unwrap();
    assert_eq!(rec.owner, 1);
    assert_eq!(rec.expire, 15 + 1000);
    assert_eq!(rec.addr, Some(vec![9u8]));
    assert!(d.bids(&name("alice.x")).is_none());
    assert_eq!(d.owners(1).unwrap(), &vec![name("alice.x")]);
}

#[test]
fn settlement_by_other_account_is_refused_and_keeps_bid() {
    let mut d = DomainService::new();
    assert_eq!(d.bid(1, name("alice.x"), 100, 5), Ok(()));
    assert_eq!(d.update(2, name("alice.x"), None), Err(DomainError::NotOwner));
    assert!(d.bids(&name("alice.x")).is_some());
    assert!(d.domains(&name("alice.x")).is_none());
    assert!(d.owners(2).is_none());
    assert!(d.owners(1).is_none());
}

#[test]
fn settlement_before_auction_end_is_allowed() {
    let mut d = DomainService::new();
    assert_eq!(d.bid(3, name("early"), 1, 100), Ok(()));
    assert_eq!(d.update(3, name("early"), None), Ok(()));
    assert_eq!(d.domains(&name("early")).unwrap().expire, 1110);
}

#[test]
fn update_of_unknown_name_is_not_found() {
    let mut d = DomainService::new();
    assert_eq!(d.update(1, name("ghost"), None), Err(DomainError::DomainNotFound));
    assert!(d.owners(1).is_none());
}

#[test]
fn metadata_update_keeps_expiry_and_sets_address() {
    let mut d = DomainService::new();
    assert_eq!(d.bid(1, name("alice.x"), 100, 0), Ok(()));
    assert_eq!(d.update(1, name("alice.x"), None), Ok(()));
    assert_eq!(d.update(1, name("alice.x"), Some(vec![1u8, 2, 3])), Ok(()));
    let rec = d.domains(&name("alice.x")).unwrap();
    assert_eq!(rec.owner, 1);
    assert_eq!(rec.expire, 1010);
    assert_eq!(rec.addr, Some(vec![1u8, 2, 3]));
    assert_eq!(d.update(1, name("alice.x"), None), Ok(()));
    assert_eq!(d.domains(&name("alice.x")).unwrap().addr, None);
    assert_eq!(d.domains(&name("alice.x")).unwrap().expire, 1010);
}

#[test]
fn metadata_update_by_other_account_is_refused() {
    let mut d = DomainService::new();
    assert_eq!(d.bid(1, name("alice.x"), 100, 0), Ok(()));
    assert_eq!(d.update(1, name("alice.x"), Some(vec![4u8])), Ok(()));
    assert_eq!(d.update(2, name("alice.x"), None), Err(DomainError::NotOwner));
    assert_eq!(d.domains(&name("alice.x")).unwrap().addr, Some(vec![4u8]));
}

#[test]
fn owner_index_lists_each_name_once_in_order() {
    let mut d = DomainService::new();
    assert_eq!(d.bid(1, name("b"), 1, 0), Ok(()));
    assert_eq!(d.update(1, name("b"), None), Ok(()));
    assert_eq!(d.bid(1, name("a"), 1, 0), Ok(()));
    assert_eq!(d.update(1, name("a"), None), Ok(()));
    assert_eq!(d.update(1, name("b"), None), Ok(()));
    assert_eq!(d.update(1, name("a"), None), Ok(()));
    assert_eq!(d.owners(1).unwrap(), &vec![name("b"), name("a")]);
}

#[test]
fn rebid_on_owned_name_moves_record_to_new_bidder() {
    let mut d = DomainService::new();
    assert_eq!(d.bid(1, name("x"), 10, 0), Ok(()));
    assert_eq!(d.update(1, name("x"), Some(vec![1u8])), Ok(()));
    assert_eq!(d.bid(2, name("x"), 5, 20), Ok(()));
    assert_eq!(d.update(2, name("x"), None), Ok(()));
    let rec = d.domains(&name("x")).unwrap();
    assert_eq!(rec.owner, 2);
    assert_eq!(rec.expire, 1030);
    assert_eq!(rec.addr, None);
    assert_eq!(d.owners(2).unwrap(), &vec![name("x")]);
    assert_eq!(d.owners(1).unwrap(), &Vec::<Vec<u8>>::new());
}

#[test]
fn name_passing_to_new_owner_leaves_rest_of_old_list_in_order() {
    let mut d = DomainService::new();
    for n in ["a", "b", "c"] {
        assert_eq!(d.bid(1, name(n), 10, 0), Ok(()));
        assert_eq!(d.update(1, name(n), None), Ok(()));
    }
    assert_eq!(d.bid(2, name("b"), 20, 5), Ok(()));
    assert_eq!(d.update(2, name("b"), None), Ok(()));
    assert_eq!(d.owners(1).unwrap(), &vec![name("a"), name("c")]);
    assert_eq!(d.owners(2).unwrap(), &vec![name("b")]);
    assert_eq!(d.domains(&name("b")).unwrap().owner, 2);
    // Winning it back returns it to the end of the first list.
    assert_eq!(d.bid(1, name("b"), 30, 6), Ok(()));
    assert_eq!(d.update(1, name("b"), None), Ok(()));
    assert_eq!(d.owners(1).unwrap(), &vec![name("a"), name("c"), name("b")]);
    assert_eq!(d.owners(2).unwrap(), &Vec::<Vec<u8>>::new());
}

#[test]
fn names_compare_byte_for_byte() {
    let mut d = DomainService::new();
    assert_eq!(d.bid(1, name("Alice"), 10, 0), Ok(()));
    assert_eq!(d.bid(2, name("alice"), 5, 0), Ok(()));
    assert_eq!(d.update(1, name("Alice"), None), Ok(()));
    assert!(d.domains(&name("alice")).is_none());
    assert!(d.bids(&name("alice")).is_some());
}
