use auction_engine::auctions::behavior_ascending_price::AscendingPriceAuction;
use auction_engine::auctions::behavior_descending_price::DescendingPriceAuction;
use auction_engine::auctions::behavior::{select, Resolution, Strategy};
use auction_engine::types::{Address, AuctionData, BidData, Error};

fn addr(id: u64) -> Address {
    Address { id }
}

fn dutch(ask: i128, reserve: i128, percent: u32, frequency: u64, compounded: bool) -> AuctionData {
    AuctionData {
        token: addr(100),
        amount: 1,
        duration: 1_000_000,
        start_time: 0,
        market: addr(101),
        reserve_price: reserve,
        ask_price: ask,
        discount_percent: percent,
        discount_frequency: frequency,
        compounded_discount: compounded,
        bids: Vec::new(),
    }
}

#[test]
fn linear_price_after_two_periods() {
    let a = dutch(1000, 0, 10, 60, false);
    let auction = DescendingPriceAuction;
    assert_eq!(auction.calculate_price(&a, 120), Ok(800));
}

#[test]
fn compounded_price_after_two_periods() {
    let a = dutch(1000, 0, 10, 60, true);
    let auction = DescendingPriceAuction;
    assert_eq!(auction.calculate_price(&a, 120), Ok(810));
}

#[test]
fn both_modes_quote_full_ask_before_first_period() {
    let linear = dutch(1000, 0, 10, 60, false);
    let compounded = dutch(1000, 0, 10, 60, true);
    let auction = DescendingPriceAuction;
    assert_eq!(auction.calculate_price(&linear, 59), Ok(1000));
    assert_eq!(auction.calculate_price(&compounded, 59), Ok(1000));
}

#[test]
fn partial_periods_do_not_count() {
    let a = dutch(1000, 0, 10, 60, false);
    let auction = DescendingPriceAuction;
    assert_eq!(auction.calculate_price(&a, 119), Ok(900));
    assert_eq!(auction.calculate_price(&a, 120), Ok(800));
}

#[test]
fn price_is_floored_at_reserve() {
    let linear = dutch(1000, 350, 10, 60, false);
    let compounded = dutch(1000, 350, 10, 60, true);
    let auction = DescendingPriceAuction;
    // far past full decay both modes sit on the reserve
    assert_eq!(auction.calculate_price(&linear, 100 * 60), Ok(350));
    assert_eq!(auction.calculate_price(&compounded, 100 * 60), Ok(350));
}

#[test]
fn linear_price_never_goes_negative() {
    // 10 % per period for 20 periods is a 200 % linear deduction
    let a = dutch(1000, 0, 10, 60, false);
    let auction = DescendingPriceAuction;
    assert_eq!(auction.calculate_price(&a, 20 * 60), Ok(0));
}

#[test]
fn full_discount_reaches_reserve_after_one_period() {
    let a = dutch(1000, 25, 100, 60, true);
    let auction = DescendingPriceAuction;
    assert_eq!(auction.calculate_price(&a, 59), Ok(1000));
    assert_eq!(auction.calculate_price(&a, 60), Ok(25));
}

#[test]
fn compounded_truncates_at_each_step() {
    // 15 * 0.9 = 13.5 -> 13, 13 * 0.9 = 11.7 -> 11; one linear computation
    // over the same two periods keeps 15 * 80 / 100 = 12
    let compounded = dutch(15, 0, 10, 1, true);
    let linear = dutch(15, 0, 10, 1, false);
    let auction = DescendingPriceAuction;
    assert_eq!(auction.calculate_price(&compounded, 2), Ok(11));
    assert_eq!(auction.calculate_price(&linear, 2), Ok(12));
}

#[test]
fn price_is_non_increasing_over_time() {
    let a = dutch(1000, 111, 7, 60, true);
    let auction = DescendingPriceAuction;
    let mut last = auction.calculate_price(&a, 0).unwrap();
    let mut now: u64 = 0;
    while now <= 60 * 40 {
        let p = auction.calculate_price(&a, now).unwrap();
        assert!(p <= last);
        assert!(p >= a.reserve_price);
        last = p;
        now += 30;
    }
}

#[test]
fn zero_discount_fields_are_invalid_parameters() {
    let no_percent = dutch(1000, 0, 0, 60, false);
    let no_frequency = dutch(1000, 0, 10, 0, false);
    let auction = DescendingPriceAuction;
    assert_eq!(auction.calculate_price(&no_percent, 10), Err(Error::InvalidParameters));
    assert_eq!(auction.calculate_price(&no_frequency, 10), Err(Error::InvalidParameters));
}

#[test]
fn dispatcher_selects_by_discount_fields() {
    assert_eq!(select(false), Strategy::Ascending);
    assert_eq!(select(true), Strategy::Descending);
    let d = dutch(1000, 0, 10, 60, false);
    let s = select(d.discount_percent > 0 && d.discount_frequency > 0);
    assert_eq!(s, Strategy::Descending);
    assert_eq!(s.calculate_price(&d, 120), Ok(800));
    let mut e = dutch(300, 0, 0, 0, false);
    e.reserve_price = 42;
    let s = select(e.discount_percent > 0 && e.discount_frequency > 0);
    assert_eq!(s, Strategy::Ascending);
    assert_eq!(s.calculate_price(&e, 120), Ok(42));
}

#[test]
fn ascending_price_is_the_reserve() {
    let mut a = dutch(200, 0, 0, 0, false);
    a.reserve_price = 100;
    let auction = AscendingPriceAuction;
    assert_eq!(auction.calculate_price(&a), 100);
}

#[test]
fn ascending_resolve_without_bids_waits_for_expiry() {
    let mut a = dutch(200, 0, 0, 0, false);
    a.reserve_price = 100;
    a.duration = 100;
    let auction = AscendingPriceAuction;
    assert_eq!(auction.resolve(&a, 99), Resolution::NotResolved);
    assert_eq!(auction.resolve(&a, 100), Resolution::NoWinner);
}

#[test]
fn ascending_resolve_picks_first_highest_bid() {
    let mut a = dutch(200, 0, 0, 0, false);
    a.reserve_price = 100;
    a.duration = 100;
    a.bids.push(BidData { buyer: addr(10), amount: 150, sniper: false });
    a.bids.push(BidData { buyer: addr(11), amount: 150, sniper: false });
    a.bids.push(BidData { buyer: addr(12), amount: 120, sniper: false });
    let auction = AscendingPriceAuction;
    assert_eq!(auction.resolve(&a, 50), Resolution::NotResolved);
    match auction.resolve(&a, 100) {
        Resolution::Winner(b) => {
            assert_eq!(b.buyer, addr(10));
            assert_eq!(b.amount, 150);
        },
        other => panic!("expected a winner, got {:?}", other),
    }
}

#[test]
fn ascending_ask_price_allows_early_settlement() {
    let mut a = dutch(200, 0, 0, 0, false);
    a.reserve_price = 100;
    a.duration = 1000;
    a.bids.push(BidData { buyer: addr(10), amount: 200, sniper: false });
    let auction = AscendingPriceAuction;
    match auction.resolve(&a, 1) {
        Resolution::Winner(b) => assert_eq!(b.amount, 200),
        other => panic!("expected a winner, got {:?}", other),
    }
}

#[test]
fn ascending_ask_at_reserve_is_not_buy_now() {
    // ask not above reserve: no early settlement, expiry is required
    let mut a = dutch(100, 0, 0, 0, false);
    a.reserve_price = 100;
    a.duration = 1000;
    a.bids.push(BidData { buyer: addr(10), amount: 500, sniper: false });
    let auction = AscendingPriceAuction;
    assert_eq!(auction.resolve(&a, 1), Resolution::NotResolved);
}

#[test]
fn descending_resolve_takes_bid_at_live_price() {
    let mut a = dutch(1000, 0, 10, 60, false);
    a.duration = 1000;
    a.bids.push(BidData { buyer: addr(10), amount: 810, sniper: false });
    let auction = DescendingPriceAuction;
    // price 900 at one period: 810 is short
    assert_eq!(auction.resolve(&a, 60), Resolution::NotResolved);
    // price 800 at two periods: 810 clears it
    match auction.resolve(&a, 120) {
        Resolution::Winner(b) => assert_eq!(b.amount, 810),
        other => panic!("expected a winner, got {:?}", other),
    }
}

#[test]
fn descending_resolve_expires_unconditionally() {
    let mut a = dutch(1000, 0, 10, 60, false);
    a.duration = 90;
    a.bids.push(BidData { buyer: addr(10), amount: 5000, sniper: false });
    let auction = DescendingPriceAuction;
    assert_eq!(auction.resolve(&a, 90), Resolution::NoWinner);
}
