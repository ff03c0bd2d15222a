use vstd::prelude::*;

verus! {

use crate::types::{Address, AdminData, AuctionData, AuctionView, BidData, Error, end_time, uses_decay, auction_wf};
use crate::auctions::behavior_ascending_price::{AscendingPriceAuction, ascending_decision};
use crate::auctions::behavior_descending_price::{DescendingPriceAuction, descending_decision};

/// What one resolution attempt decides: nothing yet, a timed-out auction
/// returned to its seller, or a sale to the ranking bid.
#[derive(Clone, Copy, PartialEq, Eq, Structural, Debug)]
pub enum Resolution {
    NotResolved,
    NoWinner,
    Winner(BidData),
}

/// Index of the ranking bid: the highest amount, ties broken in favour of
/// the bid recorded first.
pub open spec fn top_bid_index(bids: Seq<BidData>) -> int
    decreases bids.len(),
{
    if bids.len() <= 1 {
        0
    } else {
        let prev = top_bid_index(bids.drop_last());
        if bids.last().amount > bids[prev].amount {
            bids.len() - 1
        } else {
            prev
        }
    }
}

/// The ranking bid is in range, no bid beats it, and every bid before it is
/// strictly below it.
pub proof fn lemma_top_bid_index_props(bids: Seq<BidData>)
    requires
        bids.len() > 0,
    ensures
        0 <= top_bid_index(bids) < bids.len(),
        forall|i: int| 0 <= i < bids.len() ==> (#[trigger] bids[i]).amount <= bids[top_bid_index(
            bids,
        )].amount,
        forall|i: int| 0 <= i < top_bid_index(bids) ==> (#[trigger] bids[i]).amount < bids[
            top_bid_index(bids)].amount,
    decreases bids.len(),
{
    if bids.len() > 1 {
        lemma_top_bid_index_props(bids.drop_last());
        assert(forall|i: int|
            0 <= i < bids.drop_last().len() ==> bids.drop_last()[i] == bids[i]);
    }
}

/// Select the ranking bid, if any bid was recorded.
pub fn top_bid(bids: &Vec<BidData>) -> (r: Option<BidData>)
    ensures
        bids@.len() == 0 ==> r is None,
        bids@.len() > 0 ==> r == Some(bids@[top_bid_index(bids@)]),
{
    if bids.len() == 0 {
        return None;
    }
    let mut best: usize = 0;
    let mut i: usize = 1;
    while i < bids.len()
        invariant
            0 <= best < i <= bids@.len(),
            bids@.len() > 0,
            best == top_bid_index(bids@.subrange(0, i as int)),
        decreases bids@.len() - i,
    {
        proof {
            assert(bids@.subrange(0, i + 1 as int).drop_last() =~= bids@.subrange(0, i as int));
        }
        if bids[i].amount > bids[best].amount {
            best = i;
        }
        i = i + 1;
    }
    proof {
        assert(bids@.subrange(0, bids@.len() as int) =~= bids@);
    }
    Some(bids[best])
}

/// Whether the clock has reached the auction's scheduled end. The end
/// instant may exceed the clock's range, so the test subtracts instead of
/// adding.
pub fn is_expired(auction: &AuctionData, now: u64) -> (r: bool)
    ensures
        r == crate::types::expired(auction@, now),
{
    now >= auction.start_time && now - auction.start_time >= auction.duration
}

/// A bid arriving this late sits inside the anti-snipe window: the scheduled
/// end is at most `anti_snipe_time` away (or already behind).
pub open spec fn snipe_window(a: AuctionView, cfg: AdminData, now: u64) -> bool {
    now + cfg.anti_snipe_time >= end_time(a)
}

/// The duration an anti-snipe extension grows the auction to: the end moves
/// to `anti_snipe_time` past the scheduled end or past the clock, whichever
/// is later.
pub open spec fn extended_duration(a: AuctionView, cfg: AdminData, now: u64) -> int {
    (if a.duration >= now - a.start_time {
        a.duration as int
    } else {
        now - a.start_time
    }) + cfg.anti_snipe_time
}

/// The record after a bid is accepted: the bid is appended, marked as a
/// sniper exactly when it arrived inside the anti-snipe window, and a sniper
/// bid extends the duration when the configuration allows extensions.
pub open spec fn bid_recorded(
    a: AuctionView,
    cfg: AdminData,
    buyer: Address,
    amount: i128,
    now: u64,
) -> AuctionView {
    let snipe = snipe_window(a, cfg, now);
    AuctionView {
        duration: if snipe && cfg.extendable_auctions {
            extended_duration(a, cfg, now) as u64
        } else {
            a.duration
        },
        bids: a.bids.push(BidData { buyer, amount, sniper: snipe }),
        ..a
    }
}

/// Anti-snipe protection. A bid inside the window is marked as a sniper
/// bid, and, when extensions are enabled, moves the new end at least
/// `anti_snipe_time` past both the old end and the clock. A bid before the
/// window leaves the schedule untouched and is not marked.
pub proof fn lemma_anti_snipe(
    a: AuctionView,
    cfg: AdminData,
    buyer: Address,
    amount: i128,
    now: u64,
)
    requires
        a.start_time <= now,
        extended_duration(a, cfg, now) <= u64::MAX,
    ensures
        snipe_window(a, cfg, now) ==> bid_recorded(a, cfg, buyer, amount, now).bids.last().sniper,
        snipe_window(a, cfg, now) && cfg.extendable_auctions ==> {
            let v = bid_recorded(a, cfg, buyer, amount, now);
            &&& end_time(v) >= end_time(a) + cfg.anti_snipe_time
            &&& end_time(v) >= now + cfg.anti_snipe_time
        },
        !snipe_window(a, cfg, now) ==> {
            let v = bid_recorded(a, cfg, buyer, amount, now);
            &&& v.duration == a.duration
            &&& !v.bids.last().sniper
        },
{
}

/// Exactly two pricing strategies exist. The selection is re-derived from
/// the persisted record's fields on every operation; it is never stored.
#[derive(Clone, Copy, PartialEq, Eq, Structural, Debug)]
pub enum Strategy {
    Ascending,
    Descending,
}

/// The strategy a record's discount fields select.
pub open spec fn spec_select(uses_decay: bool) -> Strategy {
    if uses_decay {
        Strategy::Descending
    } else {
        Strategy::Ascending
    }
}

/// Pick the pricing strategy: time-decayed pricing exactly when the record
/// carries a positive discount at a positive frequency.
pub fn select(uses_decay: bool) -> (s: Strategy)
    ensures
        s == spec_select(uses_decay),
{
    if uses_decay {
        Strategy::Descending
    } else {
        Strategy::Ascending
    }
}

/// What resolving the auction decides under its selected strategy.
pub open spec fn resolve_decision(a: AuctionView, now: u64) -> Resolution {
    if uses_decay(a) {
        descending_decision(a, now)
    } else {
        ascending_decision(a, now)
    }
}

impl Strategy {
    /// Decide the auction's resolution under this strategy.
    pub fn resolve(&self, auction: &AuctionData, now: u64) -> (r: Resolution)
        requires
            auction_wf(auction@),
            now >= auction.start_time,
            *self == spec_select(uses_decay(auction@)),
        ensures
            r == resolve_decision(auction@, now),
    {
        match self {
            Strategy::Ascending => (AscendingPriceAuction).resolve(auction, now),
            Strategy::Descending => (DescendingPriceAuction).resolve(auction, now),
        }
    }

    /// The current price under this strategy: the reserve for an ascending
    /// auction, the decayed asking price for a descending one.
    pub fn calculate_price(&self, auction: &AuctionData, now: u64) -> (r: Result<i128, Error>)
        requires
            auction_wf(auction@),
            now >= auction.start_time,
            *self == spec_select(uses_decay(auction@)),
        ensures
            *self is Ascending ==> r == Ok::<i128, Error>(auction.reserve_price),
            *self is Descending ==> (r matches Ok(p) && p as int
                == crate::auctions::behavior_descending_price::decayed_price(auction@, now)),
    {
        match self {
            Strategy::Ascending => Ok((AscendingPriceAuction).calculate_price(auction)),
            Strategy::Descending => (DescendingPriceAuction).calculate_price(auction, now),
        }
    }
}

} // verus!
