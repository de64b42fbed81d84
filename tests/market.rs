use domain_xpay::{
    decode_account, ensure_owner, make_transfer, resolve_domain, DomainService, Payment, Price,
    Purchase, XPay, XPayError,
};

fn name(s: &str) -> Vec<u8> {
    s.as_bytes().to_vec()
}

/// A registry where account 1 owns "alice.x", published as account 2.
fn registry() -> DomainService {
    let mut d = DomainService::new();
    d.bid(1, name("alice.x"), 100, 0).unwrap();
    d.update(1, name("alice.x"), Some(vec![2u8, 0, 0, 0, 0, 0, 0, 0])).unwrap();
    d
}

#[test]
fn create_item_by_non_owner_is_refused_and_consumes_no_id() {
    let d = registry();
    let mut x = XPay::new();
    assert_eq!(
        x.create_item(&d, 5, name("alice.x"), 3, vec![1u8], 7, 10),
        Err(XPayError::NotOwner)
    );
    assert_eq!(x.next_item_id(), 0);
    assert!(x.item(0).is_none());
    assert_eq!(x.create_item(&d, 1, name("alice.x"), 3, vec![1u8], 7, 10), Ok(0));
    assert_eq!(x.next_item_id(), 1);
    assert_eq!(x.item(0), Some(&vec![1u8]));
    assert_eq!(x.item_owner(0), Some(&name("alice.x")));
    assert_eq!(x.item_quantity(0), 3);
    assert_eq!(x.item_price(0), Some(Price { asset_id: 7, amount: 10 }));
    assert_eq!(x.create_item(&d, 1, name("alice.x"), 1, vec![2u8], 7, 10), Ok(1));
    assert_eq!(x.next_item_id(), 2);
}

#[test]
fn create_item_on_unknown_name_is_not_found() {
    let d = registry();
    let mut x = XPay::new();
    assert_eq!(
        x.create_item(&d, 1, name("bob.x"), 3, vec![1u8], 7, 10),
        Err(XPayError::DomainNotFound)
    );
    assert_eq!(x.next_item_id(), 0);
}

#[test]
fn last_item_id_is_never_handed_out() {
    let d = registry();
    let mut x = XPay::with_next_item_id(u64::MAX - 1);
    assert_eq!(x.create_item(&d, 1, name("alice.x"), 1, vec![], 7, 1), Ok(u64::MAX - 1));
    assert_eq!(x.next_item_id(), u64::MAX);
    assert_eq!(
        x.create_item(&d, 1, name("alice.x"), 1, vec![], 7, 1),
        Err(XPayError::IdSpaceExhausted)
    );
    assert_eq!(x.next_item_id(), u64::MAX);
    assert!(x.item(u64::MAX).is_none());
}

#[test]
fn stock_additions_saturate_and_removals_stop_at_zero() {
    let d = registry();
    let mut x = XPay::new();
    x.create_item(&d, 1, name("alice.x"), 10, vec![], 7, 1).unwrap();
    assert_eq!(x.add_item(0, 5), 15);
    assert_eq!(x.add_item(0, u32::MAX), u32::MAX);
    assert_eq!(x.item_quantity(0), u32::MAX);
    assert_eq!(x.remove_item(0, u32::MAX - 4), 4);
    assert_eq!(x.remove_item(0, 9), 0);
    assert_eq!(x.item_quantity(0), 0);
}

#[test]
fn stock_of_unlisted_item_can_be_recorded() {
    let mut x = XPay::new();
    assert_eq!(x.item_quantity(42), 0);
    assert_eq!(x.add_item(42, 3), 3);
    assert_eq!(x.item_quantity(42), 3);
    assert!(x.item(42).is_none());
}

#[test]
fn update_item_overwrites_stock_and_price() {
    let d = registry();
    let mut x = XPay::new();
    assert_eq!(x.update_item(0, 1, 1, 1), Err(XPayError::ItemNotFound));
    assert_eq!(x.item_quantity(0), 0);
    x.create_item(&d, 1, name("alice.x"), 10, vec![], 7, 1).unwrap();
    assert_eq!(x.update_item(0, 4, 8, 25), Ok(()));
    assert_eq!(x.item_quantity(0), 4);
    assert_eq!(x.item_price(0), Some(Price { asset_id: 8, amount: 25 }));
}

#[test]
fn purchase_beyond_stock_is_refused() {
    let d = registry();
    let mut x = XPay::new();
    x.create_item(&d, 1, name("alice.x"), 3, vec![], 7, 10).unwrap();
    assert_eq!(x.purchase_item(&d, 9, 4, 0, 7, 1000), Err(XPayError::InsufficientQuantity));
    assert_eq!(x.item_quantity(0), 3);
}

#[test]
fn purchase_of_whole_stock_leaves_zero() {
    let d = registry();
    let mut x = XPay::new();
    x.create_item(&d, 1, name("alice.x"), 3, vec![], 7, 10).unwrap();
    let p = x.purchase_item(&d, 9, 3, 0, 7, 1000).unwrap();
    assert_eq!(p.new_quantity, 0);
    assert_eq!(x.settle_purchase(&p, Ok(())), Ok(()));
    assert_eq!(x.item_quantity(0), 0);
}

#[test]
fn same_asset_purchase_moves_exact_total_whatever_the_cap() {
    let d = registry();
    let mut x = XPay::new();
    x.create_item(&d, 1, name("alice.x"), 10, vec![], 7, 25).unwrap();
    let p = x.purchase_item(&d, 9, 4, 0, 7, 1).unwrap();
    assert_eq!(
        p,
        Purchase {
            item_id: 0,
            quantity: 4,
            new_quantity: 6,
            payment: Payment::Transfer { asset_id: 7, from: 9, to: 2, amount: 100 },
        }
    );
    assert_eq!(p.payment.check_paying_amount(u128::MAX), Ok(()));
    assert_eq!(x.item_quantity(0), 10);
    assert_eq!(x.settle_purchase(&p, Ok(())), Ok(()));
    assert_eq!(x.item_quantity(0), 6);
}

#[test]
fn cross_asset_purchase_swaps_within_cap() {
    let d = registry();
    let mut x = XPay::new();
    x.create_item(&d, 1, name("alice.x"), 10, vec![], 7, 25).unwrap();
    let p = x.purchase_item(&d, 9, 2, 0, 3, 80).unwrap();
    assert_eq!(
        p.payment,
        Payment::Swap {
            buyer: 9,
            recipient: 2,
            asset_sold: 3,
            asset_bought: 7,
            buy_amount: 50,
            max_paying_amount: 80,
        }
    );
    assert_eq!(p.payment.check_paying_amount(81), Err(XPayError::SlippageExceeded));
    assert_eq!(p.payment.check_paying_amount(80), Ok(()));
    assert_eq!(p.payment.check_paying_amount(0), Ok(()));
}

#[test]
fn failed_payment_leaves_stock() {
    let d = registry();
    let mut x = XPay::new();
    x.create_item(&d, 1, name("alice.x"), 10, vec![], 7, 25).unwrap();
    let p = x.purchase_item(&d, 9, 2, 0, 3, 10).unwrap();
    let r = p.payment.check_paying_amount(60);
    assert_eq!(r, Err(XPayError::SlippageExceeded));
    assert_eq!(x.settle_purchase(&p, r), Err(XPayError::SlippageExceeded));
    assert_eq!(x.item_quantity(0), 10);
    assert_eq!(x.settle_purchase(&p, Err(XPayError::PaymentFailed)), Err(XPayError::PaymentFailed));
    assert_eq!(x.item_quantity(0), 10);
}

#[test]
fn purchase_without_price_is_refused() {
    let d = registry();
    let x = XPay::new();
    assert_eq!(x.purchase_item(&d, 9, 0, 5, 7, 1), Err(XPayError::NoPrice));
}

#[test]
fn purchase_total_overflow_is_refused() {
    let d = registry();
    let mut x = XPay::new();
    x.create_item(&d, 1, name("alice.x"), 10, vec![], 7, u128::MAX).unwrap();
    assert_eq!(x.purchase_item(&d, 9, 2, 0, 7, 1), Err(XPayError::PriceOverflow));
    let p = x.purchase_item(&d, 9, 1, 0, 7, 1).unwrap();
    assert_eq!(p.payment, Payment::Transfer { asset_id: 7, from: 9, to: 2, amount: u128::MAX });
}

#[test]
fn purchase_from_unpublished_name_is_refused() {
    let mut d = DomainService::new();
    d.bid(1, name("shop"), 1, 0).unwrap();
    d.update(1, name("shop"), None).unwrap();
    let mut x = XPay::new();
    x.create_item(&d, 1, name("shop"), 10, vec![], 7, 1).unwrap();
    assert_eq!(x.purchase_item(&d, 9, 1, 0, 7, 1), Err(XPayError::DomainNotPublished));
}

#[test]
fn purchase_from_bad_address_is_refused() {
    let mut d = DomainService::new();
    d.bid(1, name("shop"), 1, 0).unwrap();
    d.update(1, name("shop"), Some(vec![1u8, 2, 3])).unwrap();
    let mut x = XPay::new();
    x.create_item(&d, 1, name("shop"), 10, vec![], 7, 1).unwrap();
    assert_eq!(x.purchase_item(&d, 9, 1, 0, 7, 1), Err(XPayError::InvalidAddress));
}

#[test]
fn ownership_check_and_resolution() {
    let d = registry();
    assert_eq!(ensure_owner(&d, &name("alice.x"), 1), Ok(()));
    assert_eq!(ensure_owner(&d, &name("alice.x"), 2), Err(XPayError::NotOwner));
    assert_eq!(ensure_owner(&d, &name("bob.x"), 1), Err(XPayError::DomainNotFound));
    assert_eq!(resolve_domain(&d, &name("alice.x")), Ok(2));
    assert_eq!(resolve_domain(&d, &name("bob.x")), Err(XPayError::DomainNotFound));
}

#[test]
fn direct_transfer_routes_by_asset() {
    let d = registry();
    assert_eq!(
        XPay::transfer(&d, 9, 7, 5, &name("alice.x"), 7, 30),
        Ok(Payment::Transfer { asset_id: 7, from: 9, to: 2, amount: 30 })
    );
    assert_eq!(
        make_transfer(&d, 9, 3, 5, &name("alice.x"), 7, 30),
        Ok(Payment::Swap {
            buyer: 9,
            recipient: 2,
            asset_sold: 3,
            asset_bought: 7,
            buy_amount: 30,
            max_paying_amount: 5,
        })
    );
    assert_eq!(
        XPay::transfer(&d, 9, 7, 5, &name("nobody"), 7, 30),
        Err(XPayError::DomainNotFound)
    );
}

#[test]
fn account_decoding_is_little_endian() {
    assert_eq!(decode_account(&[1u8, 2, 0, 0, 0, 0, 0, 0]), Some(513));
    assert_eq!(decode_account(&[0xffu8; 8]), Some(u64::MAX));
    assert_eq!(decode_account(&[0u8, 0, 0, 0, 0, 0, 0, 1, 9, 9]), Some(1u64 << 56));
    assert_eq!(decode_account(&[1u8, 2, 3, 4, 5, 6, 7]), None);
    assert_eq!(decode_account(&[]), None);
}
