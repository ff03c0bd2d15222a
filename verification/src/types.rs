use vstd::prelude::*;

verus! {

use crate::storage::{StorageType, StorageTypeInfo};

/// Upper bound on prices and bid amounts. Price decay multiplies a price by a
/// percentage before dividing by 100, and commission does the same to the
/// winning amount, so amounts at most `i128::MAX / 100` keep every such
/// product inside `i128`. The value is `i128::MAX / 100`.
pub const MAX_PRICE: i128 = 1701411834604692317316873037158841057;

/// An opaque participant identity, standing for an account name handed out by
/// the host. The engine never looks inside one: it only compares identities
/// and keys records by them.
#[derive(Clone, Copy, PartialEq, Eq, Structural, Debug)]
pub struct Address {
    pub id: u64,
}

/// One recorded offer. `sniper` marks a bid accepted inside the anti-snipe
/// window; it is informational and does not change ranking.
#[derive(Clone, Copy, PartialEq, Eq, Structural, Debug)]
pub struct BidData {
    pub buyer: Address,
    pub amount: i128,
    pub sniper: bool,
}

/// The singleton administrative configuration, created once.
#[derive(Clone, Copy, PartialEq, Eq, Structural, Debug)]
pub struct AdminData {
    pub admin: Address,
    pub anti_snipe_time: u64,
    pub commission_rate: i128,
    pub extendable_auctions: bool,
}

/// One seller's auction record.
#[derive(Debug, PartialEq, Eq)]
pub struct AuctionData {
    pub token: Address,
    pub amount: i128,
    pub duration: u64,
    pub start_time: u64,
    pub market: Address,
    pub reserve_price: i128,
    pub ask_price: i128,
    pub discount_percent: u32,
    pub discount_frequency: u64,
    pub compounded_discount: bool,
    pub bids: Vec<BidData>,
}

/// The mathematical value of an auction record: the same fields, with the
/// bids as a sequence.
pub struct AuctionView {
    pub token: Address,
    pub amount: i128,
    pub duration: u64,
    pub start_time: u64,
    pub market: Address,
    pub reserve_price: i128,
    pub ask_price: i128,
    pub discount_percent: u32,
    pub discount_frequency: u64,
    pub compounded_discount: bool,
    pub bids: Seq<BidData>,
}

impl View for AuctionData {
    type V = AuctionView;

    open spec fn view(&self) -> AuctionView {
        AuctionView {
            token: self.token,
            amount: self.amount,
            duration: self.duration,
            start_time: self.start_time,
            market: self.market,
            reserve_price: self.reserve_price,
            ask_price: self.ask_price,
            discount_percent: self.discount_percent,
            discount_frequency: self.discount_frequency,
            compounded_discount: self.compounded_discount,
            bids: self.bids@,
        }
    }
}

impl AuctionData {
    /// A field-for-field copy of the record.
    pub fn duplicate(&self) -> (r: AuctionData)
        ensures
            r@ == self@,
    {
        let mut bids: Vec<BidData> = Vec::new();
        let mut i: usize = 0;
        while i < self.bids.len()
            invariant
                0 <= i <= self.bids@.len(),
                bids@ == self.bids@.subrange(0, i as int),
            decreases self.bids@.len() - i,
        {
            bids.push(self.bids[i]);
            proof {
                assert(bids@ =~= self.bids@.subrange(0, i + 1 as int));
            }
            i = i + 1;
        }
        proof {
            assert(bids@ =~= self.bids@);
        }
        AuctionData {
            token: self.token,
            amount: self.amount,
            duration: self.duration,
            start_time: self.start_time,
            market: self.market,
            reserve_price: self.reserve_price,
            ask_price: self.ask_price,
            discount_percent: self.discount_percent,
            discount_frequency: self.discount_frequency,
            compounded_discount: self.compounded_discount,
            bids,
        }
    }
}

/// Storage key for a persisted record: the admin singleton, or the auction
/// record of one seller.
#[derive(Clone, Copy, PartialEq, Eq, Structural, Debug)]
pub enum DataKey {
    AdminData,
    AuctionData(Address),
}

/// What an engine operation can fail with. A failing operation mutates
/// nothing: every abort is all-or-nothing.
#[derive(Clone, Copy, PartialEq, Eq, Structural, Debug)]
pub enum Error {
    /// The initialization guard has not run yet.
    AdminNotSet,
    /// The initialization guard has already run.
    AdminAlreadySet,
    /// The seller already has a live auction record.
    AuctionAlreadyExists,
    /// The record an operation expected is not in storage.
    NotFound,
    /// A bid outside the accepted amount range.
    InvalidBid,
    /// Configuration fields that the selected pricing strategy cannot work
    /// with; on a stored record this signals a data-integrity fault, since
    /// the start operation validates them.
    InvalidParameters,
}

/// The settlement an auction resolves to: what the host must transfer once
/// the record is gone. With a winner, the commission goes to the admin, the
/// remainder of the winning amount to the seller, and the asset to the
/// buyer; with none, the asset goes back to the seller and no funds move.
#[derive(Clone, Copy, PartialEq, Eq, Debug)]
pub struct Settlement {
    pub token: Address,
    pub amount: i128,
    pub winner: Option<BidData>,
    pub commission: i128,
    pub seller_proceeds: i128,
}

/// The admin configuration shares the lifetime of the contract instance.
impl StorageTypeInfo for AdminData {
    open spec fn storage_type_spec() -> StorageType {
        StorageType::Instance
    }

    fn get_storage_type() -> (t: StorageType) {
        StorageType::Instance
    }
}

/// Each seller's auction record lives and expires on its own key.
impl StorageTypeInfo for AuctionData {
    open spec fn storage_type_spec() -> StorageType {
        StorageType::Persistent
    }

    fn get_storage_type() -> (t: StorageType) {
        StorageType::Persistent
    }
}

/// A recorded bid is a positive amount small enough for the commission
/// product to stay inside `i128`.
pub open spec fn bid_wf(b: BidData) -> bool {
    0 < b.amount <= MAX_PRICE
}

/// Admin configuration as the initialization guard clamps it.
pub open spec fn admin_wf(c: AdminData) -> bool {
    &&& c.anti_snipe_time <= 60
    &&& 0 <= c.commission_rate <= 100
}

/// Bounds that the start operation validates, under which the pricing
/// arithmetic stays inside `i128` and never panics.
pub open spec fn auction_wf(a: AuctionView) -> bool {
    &&& 0 <= a.reserve_price
    &&& 0 <= a.ask_price <= MAX_PRICE
    &&& a.discount_percent <= 100
    &&& forall|i: int| 0 <= i < a.bids.len() ==> bid_wf(#[trigger] a.bids[i])
}

/// The scheduled end of an auction, as an unbounded instant.
pub open spec fn end_time(a: AuctionView) -> int {
    a.start_time + a.duration
}

/// An auction is expired once the clock reaches its scheduled end.
pub open spec fn expired(a: AuctionView, now: u64) -> bool {
    now >= end_time(a)
}

/// A positive discount applied at a positive frequency selects the
/// descending strategy; anything else selects the ascending one. The pair of
/// fields doubles as the discriminant: no strategy tag is ever stored.
pub open spec fn uses_decay(a: AuctionView) -> bool {
    a.discount_percent > 0 && a.discount_frequency > 0
}

} // verus!
