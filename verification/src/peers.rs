//! Records that the sibling contracts (treasury, oracle, auction) exchange with this one.
use vstd::prelude::*;
use crate::account::{AccountId, Balance, Timestamp};
use crate::ratio::Ratio;

verus! {

/// A named fund of the treasury.
#[derive(Clone, Copy, Debug, PartialEq, Eq, Structural)]
pub enum Fund {
    Emergency,
    Operation,
    Insurance,
    Dividend,
    Buyback,
    Voting,
}

/// The denomination of a fund's balance.
#[derive(Clone, Copy, Debug, PartialEq, Eq, Structural)]
pub enum TokenKind {
    Tusdt,
    Native,
}

/// A price that the oracle committed, in TUSDT per TAO.
#[derive(Clone, Copy, Debug, PartialEq, Eq)]
pub struct PriceData {
    pub price: Ratio,
    pub committed_at: Timestamp,
}

/// A liquidation auction.
#[derive(Clone, Copy, Debug, PartialEq, Eq)]
pub struct AuctionRecord {
    pub is_finalized: bool,
    pub highest_bidder: Option<AccountId>,
    pub highest_bid: Balance,
    pub collateral_balance: Balance,
    pub debt_balance: Balance,
}

} // verus!
