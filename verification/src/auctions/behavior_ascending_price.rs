use vstd::prelude::*;

verus! {

use crate::types::{AuctionData, AuctionView, end_time, expired};
use crate::auctions::behavior::{Resolution, is_expired, lemma_top_bid_index_props, top_bid, top_bid_index};

/// The ascending ("English") pricing strategy: buyers bid the price up from
/// the reserve.
pub struct AscendingPriceAuction;

/// What resolving an ascending auction decides. With bids recorded, the
/// ranking bid wins exactly when it meets the reserve and either the
/// schedule has run out or it reaches a meaningful ask price (a buy-it-now
/// settlement before expiry). With no bids, an expired auction goes back to
/// the seller.
pub open spec fn ascending_decision(a: AuctionView, now: u64) -> Resolution {
    if a.bids.len() > 0 {
        let top = a.bids[top_bid_index(a.bids)];
        if top.amount >= a.reserve_price && (expired(a, now) || (a.ask_price > a.reserve_price
            && top.amount >= a.ask_price)) {
            Resolution::Winner(top)
        } else {
            Resolution::NotResolved
        }
    } else {
        if expired(a, now) {
            Resolution::NoWinner
        } else {
            Resolution::NotResolved
        }
    }
}

impl AscendingPriceAuction {
    /// Decide the auction's resolution.
    pub fn resolve(&self, auction: &AuctionData, now: u64) -> (r: Resolution)
        ensures
            r == ascending_decision(auction@, now),
    {
        match top_bid(&auction.bids) {
            Some(bid) => {
                if bid.amount >= auction.reserve_price && (is_expired(auction, now)
                    || (auction.ask_price > auction.reserve_price && bid.amount
                    >= auction.ask_price)) {
                    Resolution::Winner(bid)
                } else {
                    Resolution::NotResolved
                }
            },
            None => {
                if is_expired(auction, now) {
                    Resolution::NoWinner
                } else {
                    Resolution::NotResolved
                }
            },
        }
    }

    /// The current price of an ascending auction is its floor: the reserve.
    pub fn calculate_price(&self, auction: &AuctionData) -> (r: i128)
        ensures
            r == auction.reserve_price,
    {
        auction.reserve_price
    }
}

/// An ascending auction resolves to a winner only for a ranking bid that no
/// other bid beats, at or above the reserve, and only once the schedule has
/// run out or the bid reaches a meaningful ask price.
pub proof fn lemma_ascending_winner_qualifies(a: AuctionView, now: u64)
    ensures
        ascending_decision(a, now) matches Resolution::Winner(b) ==> {
            &&& a.bids.len() > 0
            &&& b == a.bids[top_bid_index(a.bids)]
            &&& forall|i: int| 0 <= i < a.bids.len() ==> a.bids[i].amount <= b.amount
            &&& b.amount >= a.reserve_price
            &&& (now >= end_time(a) || (a.ask_price > a.reserve_price && b.amount >= a.ask_price))
        },
{
    if a.bids.len() > 0 {
        lemma_top_bid_index_props(a.bids);
    }
}

} // verus!
