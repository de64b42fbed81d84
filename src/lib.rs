//! A naming registry with continuous auctions for names, and a marketplace
//! where a name's owner lists priced items that can be bought in any asset.
//!
//! Both engines are plain values: each operation takes the state it reads
//! and, where it changes state, changes it only on success. Payments are
//! decided here and carried out by the caller, who reports the outcome back.

pub mod codec;
pub mod domain_service;
pub mod store;
pub mod xpay;

pub use codec::decode_account;
pub use domain_service::{
    add_block_number_by, AccountId, Bid, BidInfo, BlockNumber, DomainAddr, DomainDetail,
    DomainError, DomainName, DomainService, AUCTION_PERIOD, OWNERSHIP_PERIOD,
};
pub use store::{AssocMap, StoreKey};
pub use xpay::{
    ensure_owner, make_transfer, resolve_domain, AssetId, Balance, ItemId, Payment, Price,
    Purchase, XPay, XPayError,
};
