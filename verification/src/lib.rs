pub mod auctions;
pub mod storage;
pub mod types;

use vstd::prelude::*;

verus! {

use crate::auctions::behavior::{
    Resolution,
    bid_recorded,
    lemma_top_bid_index_props,
    resolve_decision,
    select,
};
use crate::storage::{StorageType, Tier, delete_data, load_data, has_data, save_data};
use crate::types::{
    Address,
    AdminData,
    AuctionData,
    AuctionView,
    BidData,
    DataKey,
    Error,
    MAX_PRICE,
    Settlement,
    admin_wf,
    auction_wf,
};
use vstd::arithmetic::div_mod::{lemma_div_is_ordered, lemma_div_multiples_vanish, lemma_div_pos_is_pos};
use vstd::arithmetic::mul::{lemma_mul_inequality, lemma_mul_is_commutative, lemma_mul_nonnegative, lemma_mul_upper_bound};

/// Admin configuration as the initialization guard records it: the
/// anti-snipe window clamped into [0, 60] seconds and the commission rate
/// into [0, 100] percent.
pub open spec fn clamped_admin(
    admin: Address,
    anti_snipe_time: u64,
    commission_rate: i128,
    extendable_auctions: bool,
) -> AdminData {
    AdminData {
        admin,
        anti_snipe_time: if anti_snipe_time <= 60 {
            anti_snipe_time
        } else {
            60
        },
        commission_rate: if commission_rate < 0 {
            0
        } else if commission_rate <= 100 {
            commission_rate
        } else {
            100
        },
        extendable_auctions,
    }
}

/// Bounds the start operation validates, under which every price and
/// commission computation on the record stays inside `i128`.
pub open spec fn start_params_ok(
    reserve_price: i128,
    ask_price: i128,
    discount_percent: u32,
) -> bool {
    &&& 0 <= reserve_price
    &&& 0 <= ask_price <= MAX_PRICE
    &&& discount_percent <= 100
}

/// The record the start operation writes: the given configuration, stamped
/// with the clock, with no bids yet.
pub open spec fn started_auction(
    token: Address,
    amount: i128,
    duration: u64,
    start_time: u64,
    market: Address,
    reserve_price: i128,
    ask_price: i128,
    discount_percent: u32,
    discount_frequency: u64,
    compounded_discount: bool,
) -> AuctionView {
    AuctionView {
        token,
        amount,
        duration,
        start_time,
        market,
        reserve_price,
        ask_price,
        discount_percent,
        discount_frequency,
        compounded_discount,
        bids: Seq::empty(),
    }
}

/// What finalizing an auction settles. With a winner, the commission is the
/// winning amount times the configured rate, rounded down; it goes to the
/// admin, the remainder of the winning amount to the seller, and the asset
/// to the buyer. With no winner the asset goes back to the seller and no
/// funds move.
pub open spec fn settlement_of(a: AuctionView, cfg: AdminData, winning_bid: Option<BidData>) -> Settlement {
    match winning_bid {
        Some(b) => Settlement {
            token: a.token,
            amount: a.amount,
            winner: Some(b),
            commission: (b.amount * cfg.commission_rate / 100) as i128,
            seller_proceeds: (b.amount - b.amount * cfg.commission_rate / 100) as i128,
        },
        None => Settlement {
            token: a.token,
            amount: a.amount,
            winner: None,
            commission: 0,
            seller_proceeds: 0,
        },
    }
}

/// The auction engine and its whole persisted state: the admin singleton in
/// the instance tier, and one record per seller in the persistent tier. The
/// host serializes invocations, so each operation runs alone against a
/// consistent snapshot; authorization of the acting identities and the
/// transfers a settlement calls for stay with the host.
pub struct AuctionContract {
    pub admin: Tier<AdminData>,
    pub auctions: Tier<AuctionData>,
}

impl AuctionContract {
    /// The admin configuration, if the initialization guard has run.
    pub open spec fn admin_config(self) -> Option<AdminData> {
        if self.admin.contents().contains_key(DataKey::AdminData) {
            Some(self.admin.contents()[DataKey::AdminData])
        } else {
            None
        }
    }

    /// The seller's auction record, if one is live.
    pub open spec fn auction_of(self, seller: Address) -> Option<AuctionData> {
        if self.auctions.contents().contains_key(DataKey::AuctionData(seller)) {
            Some(self.auctions.contents()[DataKey::AuctionData(seller)])
        } else {
            None
        }
    }

    /// The engine's invariant: each tier is sound and bound to its storage
    /// class, the admin tier holds at most the singleton, every stored
    /// record is keyed by its seller's key and within the validated bounds,
    /// and no record exists before the initialization guard has run.
    pub open spec fn wf(self) -> bool {
        &&& self.admin.wf()
        &&& self.auctions.wf()
        &&& self.admin.storage_type == StorageType::Instance
        &&& self.auctions.storage_type == StorageType::Persistent
        &&& forall|k: DataKey| #[trigger] self.admin.contents().contains_key(k) ==> k
            == DataKey::AdminData
        &&& forall|k: DataKey| #[trigger] self.auctions.contents().contains_key(k) ==> k
            is AuctionData
        &&& (self.admin_config() matches Some(c) ==> admin_wf(c))
        &&& forall|k: DataKey| #[trigger] self.auctions.contents().contains_key(k)
            ==> auction_wf(self.auctions.contents()[k]@)
        &&& forall|k: DataKey| #[trigger] self.auctions.contents().contains_key(k)
            ==> self.admin.contents().contains_key(DataKey::AdminData)
    }

    /// A fresh engine: nothing initialized, no records.
    pub fn new() -> (c: AuctionContract)
        ensures
            c.wf(),
            c.admin_config() is None,
            forall|s: Address| c.auction_of(s) is None,
    {
        AuctionContract { admin: Tier::new(), auctions: Tier::new() }
    }

    /// The initialization guard: create the admin configuration once, with
    /// its fields clamped. A second call fails and changes nothing.
    pub fn initialize(&mut self, admin: Address, anti_snipe_time: u64, commission_rate: i128) -> (r:
        Result<(), Error>)
        requires
            old(self).wf(),
        ensures
            final(self).wf(),
            r is Err ==> *final(self) == *old(self),
            r is Err <==> old(self).admin_config() is Some,
            r is Err ==> r == Err::<(), Error>(Error::AdminAlreadySet),
            r is Ok ==> {
                &&& final(self).admin_config() == Some(
                    clamped_admin(admin, anti_snipe_time, commission_rate, false),
                )
                &&& forall|s: Address| final(self).auction_of(s) == old(self).auction_of(s)
            },
    {
        if has_data(&self.admin, &DataKey::AdminData) {
            return Err(Error::AdminAlreadySet);
        }
        let cfg = AdminData {
            admin,
            anti_snipe_time: if anti_snipe_time <= 60 {
                anti_snipe_time
            } else {
                60
            },
            commission_rate: if commission_rate < 0 {
                0
            } else if commission_rate <= 100 {
                commission_rate
            } else {
                100
            },
            extendable_auctions: false,
        };
        save_data(&mut self.admin, &DataKey::AdminData, cfg);
        Ok(())
    }

    /// The privileged update path for the admin configuration, with the same
    /// clamping as the initialization guard. Authorizing the caller as the
    /// admin stays with the host.
    pub fn update_admin(
        &mut self,
        admin: Address,
        anti_snipe_time: u64,
        commission_rate: i128,
        extendable_auctions: bool,
    ) -> (r: Result<(), Error>)
        requires
            old(self).wf(),
        ensures
            final(self).wf(),
            r is Err ==> *final(self) == *old(self),
            r is Err <==> old(self).admin_config() is None,
            r is Err ==> r == Err::<(), Error>(Error::AdminNotSet),
            r is Ok ==> {
                &&& final(self).admin_config() == Some(
                    clamped_admin(admin, anti_snipe_time, commission_rate, extendable_auctions),
                )
                &&& forall|s: Address| final(self).auction_of(s) == old(self).auction_of(s)
            },
    {
        if !has_data(&self.admin, &DataKey::AdminData) {
            return Err(Error::AdminNotSet);
        }
        let cfg = AdminData {
            admin,
            anti_snipe_time: if anti_snipe_time <= 60 {
                anti_snipe_time
            } else {
                60
            },
            commission_rate: if commission_rate < 0 {
                0
            } else if commission_rate <= 100 {
                commission_rate
            } else {
                100
            },
            extendable_auctions,
        };
        save_data(&mut self.admin, &DataKey::AdminData, cfg);
        Ok(())
    }

    /// Open an auction for the seller: requires the initialization guard to
    /// have run, refuses a seller who already has a live record, validates
    /// the pricing bounds, and stamps the record with the clock.
    pub fn start(
        &mut self,
        seller: Address,
        token: Address,
        amount: i128,
        duration: u64,
        market: Address,
        reserve_price: i128,
        ask_price: i128,
        discount_percent: u32,
        discount_frequency: u64,
        compounded_discount: bool,
        now: u64,
    ) -> (r: Result<(), Error>)
        requires
            old(self).wf(),
        ensures
            final(self).wf(),
            r is Err ==> *final(self) == *old(self),
            r == Err::<(), Error>(Error::AdminNotSet) <==> old(self).admin_config() is None,
            r == Err::<(), Error>(Error::AuctionAlreadyExists) <==> (old(self).admin_config()
                is Some && old(self).auction_of(seller) is Some),
            r == Err::<(), Error>(Error::InvalidParameters) <==> (old(self).admin_config() is Some
                && old(self).auction_of(seller) is None && !start_params_ok(
                reserve_price,
                ask_price,
                discount_percent,
            )),
            r is Ok <==> (old(self).admin_config() is Some && old(self).auction_of(seller) is None
                && start_params_ok(reserve_price, ask_price, discount_percent)),
            r is Ok ==> {
                &&& final(self).auction_of(seller) matches Some(a) && a@ == started_auction(
                    token,
                    amount,
                    duration,
                    now,
                    market,
                    reserve_price,
                    ask_price,
                    discount_percent,
                    discount_frequency,
                    compounded_discount,
                )
                &&& forall|s: Address| s != seller ==> final(self).auction_of(s) == old(
                    self,
                ).auction_of(s)
                &&& final(self).admin_config() == old(self).admin_config()
            },
    {
        if !has_data(&self.admin, &DataKey::AdminData) {
            return Err(Error::AdminNotSet);
        }
        let key = DataKey::AuctionData(seller);
        if has_data(&self.auctions, &key) {
            return Err(Error::AuctionAlreadyExists);
        }
        if reserve_price < 0 || ask_price < 0 || ask_price > MAX_PRICE || discount_percent > 100 {
            return Err(Error::InvalidParameters);
        }
        let auction = AuctionData {
            token,
            amount,
            duration,
            start_time: now,
            market,
            reserve_price,
            ask_price,
            discount_percent,
            discount_frequency,
            compounded_discount,
            bids: Vec::new(),
        };
        proof {
            assert(auction@.bids =~= Seq::<BidData>::empty());
        }
        save_data(&mut self.auctions, &key, auction);
        Ok(())
    }

    /// Increase the auction's duration. The duration only ever grows, and
    /// only before resolution; the host authorizes the seller.
    pub fn extend(&mut self, seller: Address, duration: u64) -> (r: Result<(), Error>)
        requires
            old(self).wf(),
            old(self).auction_of(seller) matches Some(a) ==> a.duration + duration <= u64::MAX,
        ensures
            final(self).wf(),
            r is Err ==> *final(self) == *old(self),
            r is Err <==> old(self).auction_of(seller) is None,
            r is Err ==> r == Err::<(), Error>(Error::NotFound),
            old(self).auction_of(seller) matches Some(a) ==> {
                &&& r is Ok
                &&& final(self).auction_of(seller) matches Some(a2) && a2@ == (AuctionView {
                    duration: (a.duration + duration) as u64,
                    ..a@
                })
                &&& forall|s: Address| s != seller ==> final(self).auction_of(s) == old(
                    self,
                ).auction_of(s)
                &&& final(self).admin_config() == old(self).admin_config()
            },
    {
        let key = DataKey::AuctionData(seller);
        let mut auction = match load_data(&self.auctions, &key) {
            Some(a) => a.duplicate(),
            None => {
                return Err(Error::NotFound);
            },
        };
        auction.duration = auction.duration + duration;
        save_data(&mut self.auctions, &key, auction);
        Ok(())
    }

    /// Record a buyer's bid. The strategy-independent acceptance rule admits
    /// any bid in the validated amount range while the record is live; a bid
    /// arriving inside the anti-snipe window is marked as a sniper bid and,
    /// when extensions are enabled, pushes the end at least the anti-snipe
    /// time past both the old end and the clock. The host authorizes the
    /// buyer.
    pub fn place_bid(&mut self, seller: Address, buyer: Address, amount: i128, now: u64) -> (r:
        Result<(), Error>)
        requires
            old(self).wf(),
            old(self).auction_of(seller) matches Some(a) ==> a.start_time <= now && a.duration + 60
                <= u64::MAX && now - a.start_time + 60 <= u64::MAX,
        ensures
            final(self).wf(),
            r is Err ==> *final(self) == *old(self),
            r == Err::<(), Error>(Error::NotFound) <==> old(self).auction_of(seller) is None,
            r == Err::<(), Error>(Error::InvalidBid) <==> (old(self).auction_of(seller) is Some && !(
                0 < amount <= MAX_PRICE)),
            r is Ok <==> (old(self).auction_of(seller) is Some && 0 < amount <= MAX_PRICE),
            old(self).auction_of(seller) matches Some(a) ==> r is Ok ==> {
                &&& final(self).auction_of(seller) matches Some(a2) && a2@ == bid_recorded(
                    a@,
                    old(self).admin_config().unwrap(),
                    buyer,
                    amount,
                    now,
                )
                &&& forall|s: Address| s != seller ==> final(self).auction_of(s) == old(
                    self,
                ).auction_of(s)
                &&& final(self).admin_config() == old(self).admin_config()
            },
    {
        let key = DataKey::AuctionData(seller);
        let mut auction = match load_data(&self.auctions, &key) {
            Some(a) => a.duplicate(),
            None => {
                return Err(Error::NotFound);
            },
        };
        if amount <= 0 || amount > MAX_PRICE {
            return Err(Error::InvalidBid);
        }
        let cfg = match load_data(&self.admin, &DataKey::AdminData) {
            Some(c) => *c,
            None => {
                proof {
                    assert(false);
                }
                return Err(Error::AdminNotSet);
            },
        };
        let in_window = now - auction.start_time + cfg.anti_snipe_time >= auction.duration;
        auction.bids.push(BidData { buyer, amount, sniper: in_window });
        if in_window && cfg.extendable_auctions {
            let base = if auction.duration >= now - auction.start_time {
                auction.duration
            } else {
                now - auction.start_time
            };
            auction.duration = base + cfg.anti_snipe_time;
        }
        proof {
            let a0 = old(self).auction_of(seller).unwrap();
            assert(auction_wf(a0@));
            assert(auction@.bids == a0.bids@.push(
                BidData { buyer, amount, sniper: in_window },
            ));
            assert forall|i: int| 0 <= i < auction@.bids.len() implies crate::types::bid_wf(
                #[trigger] auction@.bids[i],
            ) by {
                if i < auction@.bids.len() - 1 {
                    assert(auction@.bids[i] == a0.bids@[i]);
                    assert(a0@.bids[i] == a0.bids@[i]);
                    assert(crate::types::bid_wf(a0@.bids[i]));
                } else {
                    assert(auction@.bids[i] == BidData { buyer, amount, sniper: in_window });
                }
            }
            assert(auction_wf(auction@));
        }
        save_data(&mut self.auctions, &key, auction);
        Ok(())
    }

    /// The terminal operation: delete the record and report the transfers
    /// the settlement calls for. The engine computes; the host moves funds.
    pub fn finalize(&mut self, seller: Address, winning_bid: Option<BidData>) -> (r: Result<
        Settlement,
        Error,
    >)
        requires
            old(self).wf(),
            winning_bid matches Some(b) ==> 0 <= b.amount <= MAX_PRICE,
        ensures
            final(self).wf(),
            r is Err ==> *final(self) == *old(self),
            r is Err <==> old(self).auction_of(seller) is None,
            r is Err ==> r == Err::<Settlement, Error>(Error::NotFound),
            old(self).auction_of(seller) matches Some(a) ==> {
                &&& r == Ok::<Settlement, Error>(
                    settlement_of(a@, old(self).admin_config().unwrap(), winning_bid),
                )
                &&& final(self).auction_of(seller) is None
                &&& forall|s: Address| s != seller ==> final(self).auction_of(s) == old(
                    self,
                ).auction_of(s)
                &&& final(self).admin_config() == old(self).admin_config()
            },
    {
        let key = DataKey::AuctionData(seller);
        let auction = match load_data(&self.auctions, &key) {
            Some(a) => a.duplicate(),
            None => {
                return Err(Error::NotFound);
            },
        };
        let cfg = match load_data(&self.admin, &DataKey::AdminData) {
            Some(c) => *c,
            None => {
                proof {
                    assert(false);
                }
                return Err(Error::AdminNotSet);
            },
        };
        delete_data(&mut self.auctions, &key);
        let commission: i128;
        let seller_proceeds: i128;
        match winning_bid {
            Some(b) => {
                proof {
                    lemma_mul_nonnegative(b.amount as int, cfg.commission_rate as int);
                    lemma_mul_upper_bound(b.amount as int, MAX_PRICE as int, cfg.commission_rate as int, 100);
                    lemma_div_pos_is_pos(b.amount * cfg.commission_rate, 100);
                    lemma_mul_inequality(cfg.commission_rate as int, 100, b.amount as int);
                    lemma_mul_is_commutative(cfg.commission_rate as int, b.amount as int);
                    lemma_mul_is_commutative(100, b.amount as int);
                    lemma_div_is_ordered(b.amount * cfg.commission_rate, 100 * b.amount, 100);
                    lemma_div_multiples_vanish(b.amount as int, 100);
                }
                commission = b.amount * cfg.commission_rate / 100;
                seller_proceeds = b.amount - commission;
            },
            None => {
                commission = 0;
                seller_proceeds = 0;
            },
        }
        Ok(
            Settlement {
                token: auction.token,
                amount: auction.amount,
                winner: winning_bid,
                commission,
                seller_proceeds,
            },
        )
    }

    /// One resolution attempt under the strategy the record's fields select.
    /// While the conditions are unmet this mutates nothing and reports the
    /// same negative outcome, however often it is repeated; once they are
    /// met it finalizes, deletes the record, and returns the settlement.
    pub fn resolve(&mut self, seller: Address, now: u64) -> (r: Result<Option<Settlement>, Error>)
        requires
            old(self).wf(),
            old(self).auction_of(seller) matches Some(a) ==> a.start_time <= now,
        ensures
            final(self).wf(),
            r is Err ==> *final(self) == *old(self),
            r is Err <==> old(self).auction_of(seller) is None,
            r is Err ==> r == Err::<Option<Settlement>, Error>(Error::NotFound),
            old(self).auction_of(seller) matches Some(a) ==> match resolve_decision(a@, now) {
                Resolution::NotResolved => r == Ok::<Option<Settlement>, Error>(None)
                    && *final(self) == *old(self),
                Resolution::NoWinner => {
                    &&& r == Ok::<Option<Settlement>, Error>(
                        Some(settlement_of(a@, old(self).admin_config().unwrap(), None)),
                    )
                    &&& final(self).auction_of(seller) is None
                    &&& forall|s: Address| s != seller ==> final(self).auction_of(s) == old(
                        self,
                    ).auction_of(s)
                    &&& final(self).admin_config() == old(self).admin_config()
                },
                Resolution::Winner(b) => {
                    &&& r == Ok::<Option<Settlement>, Error>(
                        Some(settlement_of(a@, old(self).admin_config().unwrap(), Some(b))),
                    )
                    &&& final(self).auction_of(seller) is None
                    &&& forall|s: Address| s != seller ==> final(self).auction_of(s) == old(
                        self,
                    ).auction_of(s)
                    &&& final(self).admin_config() == old(self).admin_config()
                },
            },
    {
        let key = DataKey::AuctionData(seller);
        let auction = match load_data(&self.auctions, &key) {
            Some(a) => a.duplicate(),
            None => {
                return Err(Error::NotFound);
            },
        };
        let strategy = select(auction.discount_percent > 0 && auction.discount_frequency > 0);
        let decision = strategy.resolve(&auction, now);
        match decision {
            Resolution::NotResolved => Ok(None),
            Resolution::NoWinner => {
                match self.finalize(seller, None) {
                    Ok(s) => Ok(Some(s)),
                    Err(e) => {
                        proof {
                            assert(false);
                        }
                        Err(e)
                    },
                }
            },
            Resolution::Winner(b) => {
                proof {
                    if auction@.bids.len() > 0 {
                        lemma_top_bid_index_props(auction@.bids);
                    }
                }
                match self.finalize(seller, Some(b)) {
                    Ok(s) => Ok(Some(s)),
                    Err(e) => {
                        proof {
                            assert(false);
                        }
                        Err(e)
                    },
                }
            },
        }
    }

    /// Read-only lookup of the admin configuration.
    pub fn get_admin(&self) -> (r: Option<AdminData>)
        requires
            self.wf(),
        ensures
            r == self.admin_config(),
    {
        match load_data(&self.admin, &DataKey::AdminData) {
            Some(c) => Some(*c),
            None => None,
        }
    }

    /// Read-only lookup of the seller's auction record.
    pub fn get_auction(&self, seller: Address) -> (r: Option<AuctionData>)
        requires
            self.wf(),
        ensures
            match r {
                Some(a) => self.auction_of(seller) matches Some(x) && a@ == x@,
                None => self.auction_of(seller) is None,
            },
    {
        match load_data(&self.auctions, &DataKey::AuctionData(seller)) {
            Some(a) => Some(a.duplicate()),
            None => None,
        }
    }
}

} // verus!
