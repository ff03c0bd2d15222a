use vstd::prelude::*;

verus! {

use vstd::arithmetic::div_mod::{
    lemma_basic_div,
    lemma_div_is_ordered,
    lemma_div_multiples_vanish,
    lemma_div_pos_is_pos,
};
use vstd::arithmetic::mul::{
    lemma_mul_inequality,
    lemma_mul_is_commutative,
    lemma_mul_nonnegative,
    lemma_mul_strict_inequality,
    lemma_mul_upper_bound,
};
use vstd::arithmetic::power::{lemma0_pow, lemma_pow1, lemma_pow_positive, pow};
use crate::types::{AuctionData, AuctionView, Error, MAX_PRICE, auction_wf, expired, uses_decay};
use crate::auctions::behavior::{Resolution, is_expired, top_bid, top_bid_index};

/// The descending ("Dutch") pricing strategy: the asking price decays over
/// time until a bid accepts it.
pub struct DescendingPriceAuction;

/// The asking price after `periods` rounds of compounding: each elapsed
/// period keeps `(100 - discount_percent)` hundredths of the running price,
/// rounding down at every step. The iteration is the specification: the
/// truncation in each step is part of the price.
pub open spec fn compound_price(ask: int, discount_percent: int, periods: nat) -> int
    decreases periods,
{
    if periods == 0 {
        ask
    } else {
        (100 - discount_percent) * compound_price(ask, discount_percent, (periods - 1) as nat)
            / 100
    }
}

/// The asking price after `periods` of linear discounting: the deduction
/// accumulates additively and is applied in one computation.
pub open spec fn linear_price(ask: int, discount_percent: int, periods: int) -> int {
    ask * (100 - discount_percent * periods) / 100
}

/// The live price of a descending auction: whole elapsed periods discount
/// the asking price, compounded or linearly as configured, and the result
/// never falls below the reserve.
pub open spec fn decayed_price(a: AuctionView, now: u64) -> int {
    let periods = (now - a.start_time) / (a.discount_frequency as int);
    let raw = if a.compounded_discount {
        compound_price(a.ask_price as int, a.discount_percent as int, periods as nat)
    } else {
        linear_price(a.ask_price as int, a.discount_percent as int, periods)
    };
    if raw >= a.reserve_price {
        raw
    } else {
        a.reserve_price as int
    }
}

/// What resolving a descending auction decides: an expired auction goes
/// back to the seller unconditionally; otherwise the ranking bid wins
/// exactly when it meets the live decayed price.
pub open spec fn descending_decision(a: AuctionView, now: u64) -> Resolution {
    if expired(a, now) {
        Resolution::NoWinner
    } else if a.bids.len() > 0 && a.bids[top_bid_index(a.bids)].amount >= decayed_price(a, now) {
        Resolution::Winner(a.bids[top_bid_index(a.bids)])
    } else {
        Resolution::NotResolved
    }
}

/// The compounded price stays between zero and the asking price.
pub proof fn lemma_compound_price_bounds(ask: int, d: int, p: nat)
    requires
        0 <= ask,
        0 <= d <= 100,
    ensures
        0 <= compound_price(ask, d, p) <= ask,
    decreases p,
{
    if p > 0 {
        lemma_compound_price_bounds(ask, d, (p - 1) as nat);
        let c = compound_price(ask, d, (p - 1) as nat);
        lemma_mul_nonnegative(100 - d, c);
        lemma_div_pos_is_pos((100 - d) * c, 100);
        lemma_mul_inequality(100 - d, 100, c);
        lemma_div_is_ordered((100 - d) * c, 100 * c, 100);
        lemma_div_multiples_vanish(c, 100);
    }
}

/// More elapsed periods never raise the compounded price.
pub proof fn lemma_compound_price_monotonic(ask: int, d: int, p1: nat, p2: nat)
    requires
        0 <= ask,
        0 <= d <= 100,
        p1 <= p2,
    ensures
        compound_price(ask, d, p2) <= compound_price(ask, d, p1),
    decreases p2 - p1,
{
    if p2 > p1 {
        lemma_compound_price_monotonic(ask, d, p1, (p2 - 1) as nat);
        lemma_compound_price_bounds(ask, d, (p2 - 1) as nat);
        let c = compound_price(ask, d, (p2 - 1) as nat);
        lemma_mul_inequality(100 - d, 100, c);
        lemma_div_is_ordered((100 - d) * c, 100 * c, 100);
        lemma_div_multiples_vanish(c, 100);
    }
}

/// More elapsed periods never raise the linearly discounted price.
pub proof fn lemma_linear_price_monotonic(ask: int, d: int, p1: int, p2: int)
    requires
        0 <= ask,
        0 <= d,
        0 <= p1 <= p2,
    ensures
        linear_price(ask, d, p2) <= linear_price(ask, d, p1),
{
    lemma_mul_inequality(p1, p2, d);
    lemma_mul_is_commutative(p1, d);
    lemma_mul_is_commutative(p2, d);
    lemma_mul_inequality(100 - d * p2, 100 - d * p1, ask);
    lemma_mul_is_commutative(100 - d * p2, ask);
    lemma_mul_is_commutative(100 - d * p1, ask);
    lemma_div_is_ordered(ask * (100 - d * p2), ask * (100 - d * p1), 100);
}

/// The live price of a descending auction is non-increasing as time passes
/// and never falls below the reserve.
pub proof fn lemma_decayed_price_monotonic(a: AuctionView, now1: u64, now2: u64)
    requires
        auction_wf(a),
        uses_decay(a),
        a.start_time <= now1 <= now2,
    ensures
        decayed_price(a, now2) <= decayed_price(a, now1),
        decayed_price(a, now1) >= a.reserve_price,
{
    let df = a.discount_frequency as int;
    let p1 = (now1 - a.start_time) / df;
    let p2 = (now2 - a.start_time) / df;
    lemma_div_pos_is_pos(now1 - a.start_time, df);
    lemma_div_is_ordered(now1 - a.start_time, now2 - a.start_time, df);
    if a.compounded_discount {
        lemma_compound_price_monotonic(a.ask_price as int, a.discount_percent as int, p1 as nat, p2 as nat);
    } else {
        lemma_linear_price_monotonic(a.ask_price as int, a.discount_percent as int, p1, p2);
    }
}

/// Before any period has elapsed, both discount modes still quote the full
/// asking price.
pub proof fn lemma_discount_modes_agree_at_start(ask: int, d: int)
    requires
        0 <= ask,
    ensures
        compound_price(ask, d, 0) == ask,
        linear_price(ask, d, 0) == ask,
{
    lemma_mul_is_commutative(ask, 100);
    lemma_div_multiples_vanish(ask, 100);
}

/// Bernoulli's inequality for the two discount schedules, scale-free: from
/// two periods on, the compounded factor `(100 - d)^k` stays strictly above
/// the linear factor `(100 - d k)` brought to the same scale.
proof fn lemma_pow_bernoulli(d: int, k: nat)
    requires
        1 <= d <= 100,
        2 <= k,
    ensures
        pow(100 - d, k) > (100 - d * k) * pow(100, (k - 1) as nat),
    decreases k,
{
    if d == 100 {
        lemma0_pow(k);
        lemma_pow_positive(100, (k - 1) as nat);
        assert((100 - d * k) * pow(100, (k - 1) as nat) < 0) by (nonlinear_arith)
            requires
                d == 100,
                k >= 2,
                pow(100, (k - 1) as nat) > 0,
        ;
    } else if k == 2 {
        assert(pow(100 - d, 2) == (100 - d) * pow(100 - d, 1)) by {
            reveal(pow);
        }
        lemma_pow1(100 - d);
        lemma_pow1(100);
        assert((100 - d) * (100 - d) > (100 - d * 2) * 100) by (nonlinear_arith)
            requires
                1 <= d < 100,
        ;
    } else {
        lemma_pow_bernoulli(d, (k - 1) as nat);
        let pk1 = pow(100 - d, (k - 1) as nat);
        let q = pow(100, (k - 2) as nat);
        assert(pow(100 - d, k) == (100 - d) * pk1) by {
            reveal(pow);
        }
        assert(pow(100, (k - 1) as nat) == 100 * q) by {
            reveal(pow);
        }
        // the inductive hypothesis, scaled by the positive factor (100 - d)
        lemma_mul_strict_inequality((100 - d * (k - 1)) * q, pk1, 100 - d);
        lemma_mul_is_commutative((100 - d * (k - 1)) * q, 100 - d);
        lemma_mul_is_commutative(pk1, 100 - d);
        lemma_pow_positive(100, (k - 2) as nat);
        // (100 - d)(100 - d(k-1)) q >= (100 - d k) 100 q
        assert((100 - d) * ((100 - d * (k - 1)) * q) >= (100 - d * k) * (100 * q))
            by (nonlinear_arith)
            requires
                1 <= d < 100,
                3 <= k,
                q > 0,
        ;
    }
}

/// At zero elapsed periods the compounded and linear discounts coincide;
/// from two periods on they must diverge. The divergence is stated over the
/// exact scaled values, before each mode's division by its power of 100:
/// truncation to whole token units can mask the gap for small asking
/// prices, but the underlying schedules differ, with iterated compounding
/// strictly above the linear deduction.
pub proof fn lemma_discount_divergence(ask: int, d: int, k: nat)
    requires
        1 <= ask,
        1 <= d <= 100,
        2 <= k,
    ensures
        ask * pow(100 - d, k) > ask * ((100 - d * k) * pow(100, (k - 1) as nat)),
{
    lemma_pow_bernoulli(d, k);
    lemma_mul_strict_inequality((100 - d * k) * pow(100, (k - 1) as nat), pow(100 - d, k), ask);
    lemma_mul_is_commutative((100 - d * k) * pow(100, (k - 1) as nat), ask);
    lemma_mul_is_commutative(pow(100 - d, k), ask);
}

impl DescendingPriceAuction {
    /// The live decayed price. A record whose discount fields do not select
    /// this strategy cannot be priced by it: that is a data-integrity fault,
    /// reported as invalid parameters.
    pub fn calculate_price(&self, auction: &AuctionData, now: u64) -> (r: Result<i128, Error>)
        requires
            auction_wf(auction@),
            now >= auction.start_time,
        ensures
            r is Err <==> !uses_decay(auction@),
            r is Err ==> r == Err::<i128, Error>(Error::InvalidParameters),
            r matches Ok(p) ==> p as int == decayed_price(auction@, now) && p
                >= auction.reserve_price,
    {
        if auction.discount_percent == 0 || auction.discount_frequency == 0 {
            return Err(Error::InvalidParameters);
        }
        let elapsed: u64 = now - auction.start_time;
        let periods: u64 = elapsed / auction.discount_frequency;
        let ask: i128 = auction.ask_price;
        let dp: i128 = auction.discount_percent as i128;
        let reserve: i128 = auction.reserve_price;
        let ghost raw: int = if auction.compounded_discount {
            compound_price(ask as int, dp as int, periods as nat)
        } else {
            linear_price(ask as int, dp as int, periods as int)
        };
        let candidate: i128;
        if auction.compounded_discount {
            let mut price: i128 = ask;
            let mut k: u64 = 0;
            while k < periods && price > reserve
                invariant
                    0 <= k <= periods,
                    0 <= dp <= 100,
                    0 <= ask <= MAX_PRICE,
                    price as int == compound_price(ask as int, dp as int, k as nat),
                    0 <= price <= ask,
                decreases periods - k,
            {
                proof {
                    lemma_mul_nonnegative(100 - dp, price as int);
                    lemma_mul_upper_bound(100 - dp, 100, price as int, MAX_PRICE as int);
                    lemma_div_pos_is_pos((100 - dp) * price, 100);
                    lemma_mul_inequality(100 - dp, 100, price as int);
                    lemma_div_is_ordered((100 - dp) * price, 100 * price, 100);
                    lemma_div_multiples_vanish(price as int, 100);
                }
                price = (100 - dp) * price / 100;
                k = k + 1;
            }
            proof {
                if k < periods {
                    lemma_compound_price_monotonic(ask as int, dp as int, k as nat, periods as nat);
                }
            }
            candidate = price;
        } else {
            proof {
                lemma_mul_upper_bound(dp as int, 100, periods as int, u64::MAX as int);
                lemma_mul_nonnegative(dp as int, periods as int);
            }
            let deduction: i128 = dp * (periods as i128);
            if deduction >= 100 {
                proof {
                    lemma_mul_inequality(100 - deduction, 0, ask as int);
                    lemma_mul_is_commutative(100 - deduction, ask as int);
                    lemma_div_is_ordered(ask * (100 - deduction), 0, 100);
                    lemma_basic_div(0, 100);
                }
                candidate = 0;
            } else {
                proof {
                    lemma_mul_nonnegative(ask as int, 100 - deduction);
                    lemma_mul_upper_bound(ask as int, MAX_PRICE as int, 100 - deduction as int, 100);
                    lemma_div_pos_is_pos(ask * (100 - deduction), 100);
                    lemma_div_is_ordered(ask * (100 - deduction), MAX_PRICE * 100, 100);
                    lemma_mul_is_commutative(MAX_PRICE as int, 100);
                    lemma_div_multiples_vanish(MAX_PRICE as int, 100);
                }
                candidate = ask * (100 - deduction) / 100;
            }
        }
        assert(candidate as int == raw || (candidate <= reserve && raw <= reserve));
        let price = if candidate > reserve {
            candidate
        } else {
            reserve
        };
        Ok(price)
    }

    /// Decide the auction's resolution.
    pub fn resolve(&self, auction: &AuctionData, now: u64) -> (r: Resolution)
        requires
            auction_wf(auction@),
            uses_decay(auction@),
            now >= auction.start_time,
        ensures
            r == descending_decision(auction@, now),
    {
        if is_expired(auction, now) {
            return Resolution::NoWinner;
        }
        match top_bid(&auction.bids) {
            Some(bid) => {
                match self.calculate_price(auction, now) {
                    Ok(p) => {
                        if bid.amount >= p {
                            Resolution::Winner(bid)
                        } else {
                            Resolution::NotResolved
                        }
                    },
                    Err(_) => {
                        proof {
                            assert(false);
                        }
                        Resolution::NotResolved
                    },
                }
            },
            None => Resolution::NotResolved,
        }
    }
}

} // verus!
