use auction_engine::storage::{
    KeyedData, StorageType, StorageTypeInfo, Tier, bump_data, delete_data, has_data, load_data,
    load_data_or_else, save_data, seconds_to_ledgers, LEDGERS_PER_YEAR,
};
use auction_engine::types::{Address, AdminData, AuctionData, DataKey};

fn addr(id: u64) -> Address {
    Address { id }
}

fn admin(id: u64) -> AdminData {
    AdminData { admin: addr(id), anti_snipe_time: 10, commission_rate: 5, extendable_auctions: false }
}

fn auction(seller_token: u64) -> AuctionData {
    AuctionData {
        token: addr(seller_token),
        amount: 1,
        duration: 100,
        start_time: 0,
        market: addr(2),
        reserve_price: 10,
        ask_price: 20,
        discount_percent: 0,
        discount_frequency: 0,
        compounded_discount: false,
        bids: Vec::new(),
    }
}

#[test]
fn tier_bindings_follow_the_declared_storage_class() {
    assert_eq!(AdminData::get_storage_type(), StorageType::Instance);
    assert_eq!(AuctionData::get_storage_type(), StorageType::Persistent);
    let admin_tier: Tier<AdminData> = Tier::new();
    let auction_tier: Tier<AuctionData> = Tier::new();
    assert_eq!(admin_tier.storage_type, StorageType::Instance);
    assert_eq!(auction_tier.storage_type, StorageType::Persistent);
}

#[test]
fn save_load_has_delete_round_trip() {
    let mut tier: Tier<AuctionData> = Tier::new();
    let key = DataKey::AuctionData(addr(1));
    assert!(!has_data(&tier, &key));
    assert!(load_data(&tier, &key).is_none());
    save_data(&mut tier, &key, auction(7));
    assert!(has_data(&tier, &key));
    assert_eq!(load_data(&tier, &key).unwrap().token, addr(7));
    save_data(&mut tier, &key, auction(8));
    assert_eq!(load_data(&tier, &key).unwrap().token, addr(8));
    delete_data(&mut tier, &key);
    assert!(!has_data(&tier, &key));
}

#[test]
fn keys_are_independent() {
    let mut tier: Tier<AuctionData> = Tier::new();
    let k1 = DataKey::AuctionData(addr(1));
    let k2 = DataKey::AuctionData(addr(2));
    save_data(&mut tier, &k1, auction(7));
    save_data(&mut tier, &k2, auction(9));
    delete_data(&mut tier, &k1);
    assert!(!has_data(&tier, &k1));
    assert_eq!(load_data(&tier, &k2).unwrap().token, addr(9));
}

#[test]
fn seconds_convert_by_ceiling_division() {
    assert_eq!(seconds_to_ledgers(0), 0);
    assert_eq!(seconds_to_ledgers(1), 1);
    assert_eq!(seconds_to_ledgers(6), 1);
    assert_eq!(seconds_to_ledgers(7), 2);
    assert_eq!(seconds_to_ledgers(60), 10);
    assert_eq!(seconds_to_ledgers(365 * 24 * 3600), LEDGERS_PER_YEAR as u32);
}

#[test]
fn conversion_is_clamped_to_one_year() {
    assert_eq!(seconds_to_ledgers(365 * 24 * 3600 + 1), LEDGERS_PER_YEAR as u32);
    assert_eq!(seconds_to_ledgers(u64::MAX), LEDGERS_PER_YEAR as u32);
}

#[test]
fn bump_extends_a_short_lifetime_per_key() {
    let mut tier: Tier<AuctionData> = Tier::new();
    let key = DataKey::AuctionData(addr(1));
    save_data(&mut tier, &key, auction(7));
    // a fresh key has no extension bought yet
    assert_eq!(tier.entries[0].ttl, 0);
    // 60 s low, 120 s high: 10 ticks short, grant 20
    bump_data(&mut tier, &key, 60, 120);
    assert_eq!(tier.entries[0].ttl, 20);
    // already above the low watermark: left alone
    bump_data(&mut tier, &key, 60, 6000);
    assert_eq!(tier.entries[0].ttl, 20);
    // value survives bumping
    assert_eq!(load_data(&tier, &key).unwrap().token, addr(7));
}

#[test]
fn bump_on_missing_key_is_harmless() {
    let mut tier: Tier<AuctionData> = Tier::new();
    bump_data(&mut tier, &DataKey::AuctionData(addr(1)), 60, 120);
    assert!(!has_data(&tier, &DataKey::AuctionData(addr(1))));
}

#[test]
fn instance_tier_bumps_as_a_whole() {
    let mut tier: Tier<AdminData> = Tier::new();
    save_data(&mut tier, &DataKey::AdminData, admin(1));
    assert_eq!(tier.instance_ttl, 0);
    bump_data(&mut tier, &DataKey::AdminData, 600, 1200);
    assert_eq!(tier.instance_ttl, 200);
    // the key's own extension is untouched on an instance-scoped tier
    assert_eq!(tier.entries[0].ttl, 0);
    bump_data(&mut tier, &DataKey::AdminData, 60, 12000);
    assert_eq!(tier.instance_ttl, 200);
}

#[test]
fn overwrite_keeps_the_extension_bought() {
    let mut tier: Tier<AuctionData> = Tier::new();
    let key = DataKey::AuctionData(addr(1));
    save_data(&mut tier, &key, auction(7));
    bump_data(&mut tier, &key, 60, 120);
    save_data(&mut tier, &key, auction(8));
    assert_eq!(tier.entries[0].ttl, 20);
    assert_eq!(load_data(&tier, &key).unwrap().token, addr(8));
}

#[test]
fn load_data_or_else_handles_both_outcomes() {
    let mut tier: Tier<AuctionData> = Tier::new();
    let key = DataKey::AuctionData(addr(1));
    let missing = load_data_or_else(&tier, &key, |o| o.is_none());
    assert!(missing);
    save_data(&mut tier, &key, auction(7));
    let token = load_data_or_else(&tier, &key, |o| o.unwrap().token);
    assert_eq!(token, addr(7));
}

#[test]
fn keyed_data_binds_a_key_to_its_type() {
    let kd: KeyedData<DataKey, AdminData> = KeyedData::new(DataKey::AdminData);
    assert!(matches!(kd.get_key(), DataKey::AdminData));
}
