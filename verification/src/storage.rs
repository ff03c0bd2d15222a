use vstd::prelude::*;

verus! {

use core::marker::PhantomData;
use crate::types::DataKey;

/// One ledger tick is six seconds of wall-clock time on average.
pub const LEDGERS_PER_MINUTE: u64 = 10;

pub const LEDGERS_PER_HOUR: u64 = LEDGERS_PER_MINUTE * 60;

pub const LEDGERS_PER_DAY: u64 = LEDGERS_PER_HOUR * 24;

/// Cap on any single time-to-live extension: one year of ledger ticks.
pub const LEDGERS_PER_YEAR: u64 = LEDGERS_PER_DAY * 365;

/// Wall-clock seconds covered by one ledger tick.
pub const SECONDS_PER_LEDGER: u64 = 6;

/// The durability class of a storage tier: short-lived data, data scoped to
/// the contract instance as a whole, and long-lived data expiring per key.
#[derive(Clone, Copy, PartialEq, Eq, Structural, Debug)]
pub enum StorageType {
    Instance,
    Persistent,
    Temporary,
}

/// Binds a persisted data type to the one tier that holds it. Adding a new
/// persisted entity declares this binding and nothing more.
pub trait StorageTypeInfo {
    /// The tier this data type is bound to.
    spec fn storage_type_spec() -> StorageType;

    fn get_storage_type() -> (t: StorageType)
        ensures
            t == Self::storage_type_spec(),
    ;
}

/// Watermarks for extending a lifetime are given in wall-clock seconds and
/// converted to whole ledger ticks, rounding up so that the requested span is
/// always covered, and clamped to one year of ticks so no caller can request
/// an unbounded extension.
pub open spec fn spec_seconds_to_ledgers(seconds: u64) -> u64 {
    let ticks = (seconds + SECONDS_PER_LEDGER - 1) / (SECONDS_PER_LEDGER as int);
    if ticks > LEDGERS_PER_YEAR {
        LEDGERS_PER_YEAR as u64
    } else {
        ticks as u64
    }
}

/// Ceiling conversion from seconds to ledger ticks, clamped to one year.
pub fn seconds_to_ledgers(seconds: u64) -> (r: u32)
    ensures
        r == spec_seconds_to_ledgers(seconds),
{
    if seconds > SECONDS_PER_LEDGER * LEDGERS_PER_YEAR {
        proof {
            assert((seconds + SECONDS_PER_LEDGER - 1) / (SECONDS_PER_LEDGER as int)
                > LEDGERS_PER_YEAR)
                by (nonlinear_arith)
                requires
                    seconds > SECONDS_PER_LEDGER * LEDGERS_PER_YEAR,
                    SECONDS_PER_LEDGER == 6,
                    LEDGERS_PER_YEAR == 5256000,
            ;
        }
        LEDGERS_PER_YEAR as u32
    } else {
        ((seconds + (SECONDS_PER_LEDGER - 1)) / SECONDS_PER_LEDGER) as u32
    }
}

/// One stored record: its key, its value, and the extension bought for it so
/// far, in ledger ticks.
pub struct Entry<T> {
    pub key: DataKey,
    pub value: T,
    pub ttl: u32,
}

/// The keys of a run of entries never repeat.
pub open spec fn keys_unique<T>(s: Seq<Entry<T>>) -> bool {
    forall|i: int, j: int| 0 <= i < j < s.len() ==> s[i].key != s[j].key
}

/// The key-to-value map that a run of entries denotes.
pub open spec fn entries_map<T>(s: Seq<Entry<T>>) -> Map<DataKey, T>
    decreases s.len(),
{
    if s.len() == 0 {
        Map::empty()
    } else {
        entries_map(s.drop_last()).insert(s.last().key, s.last().value)
    }
}

/// The extension recorded for a key; zero when the key is absent.
pub open spec fn entries_ttl<T>(s: Seq<Entry<T>>, k: DataKey) -> u32
    decreases s.len(),
{
    if s.len() == 0 {
        0u32
    } else if s.last().key == k {
        s.last().ttl
    } else {
        entries_ttl(s.drop_last(), k)
    }
}

/// A key is in the denoted map exactly when some entry carries it.
proof fn lemma_entries_map_dom<T>(s: Seq<Entry<T>>, k: DataKey)
    ensures
        entries_map(s).contains_key(k) <==> exists|i: int| 0 <= i < s.len() && s[i].key == k,
    decreases s.len(),
{
    if s.len() > 0 {
        lemma_entries_map_dom(s.drop_last(), k);
        if s.last().key == k {
            assert(s[s.len() - 1].key == k);
        } else if entries_map(s).contains_key(k) {
            let i = choose|i: int| 0 <= i < s.drop_last().len() && s.drop_last()[i].key == k;
            assert(s[i].key == k);
        } else if exists|i: int| 0 <= i < s.len() && s[i].key == k {
            let i = choose|i: int| 0 <= i < s.len() && s[i].key == k;
            assert(s.drop_last()[i].key == k);
        }
    }
}

/// With unique keys, the entry holding a key gives its value and extension.
proof fn lemma_entries_map_index<T>(s: Seq<Entry<T>>, i: int)
    requires
        keys_unique(s),
        0 <= i < s.len(),
    ensures
        entries_map(s).contains_key(s[i].key),
        entries_map(s)[s[i].key] == s[i].value,
        entries_ttl(s, s[i].key) == s[i].ttl,
    decreases s.len(),
{
    if i == s.len() - 1 {
    } else {
        assert(s.drop_last()[i] == s[i]);
        lemma_entries_map_index(s.drop_last(), i);
        assert(s[i].key != s.last().key);
    }
}

/// Removing the entry at one position removes exactly its key from the map
/// and leaves every other key's value and extension unchanged.
proof fn lemma_entries_map_remove<T>(s: Seq<Entry<T>>, i: int)
    requires
        keys_unique(s),
        0 <= i < s.len(),
    ensures
        keys_unique(s.remove(i)),
        entries_map(s.remove(i)) == entries_map(s).remove(s[i].key),
        forall|k: DataKey| k != s[i].key ==> entries_ttl(s.remove(i), k) == entries_ttl(s, k),
        entries_ttl(s.remove(i), s[i].key) == 0u32,
    decreases s.len(),
{
    let r = s.remove(i);
    assert forall|a: int, b: int| 0 <= a < b < r.len() implies r[a].key != r[b].key by {
        if b < i {
            assert(r[a] == s[a] && r[b] == s[b]);
        } else if a < i {
            assert(r[a] == s[a] && r[b] == s[b + 1]);
        } else {
            assert(r[a] == s[a + 1] && r[b] == s[b + 1]);
        }
    }
    if i == s.len() - 1 {
        assert(r =~= s.drop_last());
        lemma_entries_map_dom(s.drop_last(), s[i].key);
        assert forall|j: int| 0 <= j < s.drop_last().len() implies s.drop_last()[j].key != s[i].key by {
            assert(s[j] == s.drop_last()[j]);
        }
        assert(entries_map(s.drop_last()) == entries_map(s).remove(s[i].key)) by {
            assert(entries_map(s.drop_last()) =~= entries_map(s.drop_last()).insert(
                s.last().key,
                s.last().value,
            ).remove(s[i].key));
        }
        lemma_entries_ttl_absent(s.drop_last(), s[i].key);
    } else {
        assert(r.drop_last() =~= s.drop_last().remove(i));
        assert(r.last() == s.last());
        assert(forall|a: int, b: int|
            0 <= a < b < s.drop_last().len() ==> s.drop_last()[a] == s[a] && s.drop_last()[b]
                == s[b]);
        lemma_entries_map_remove(s.drop_last(), i);
        assert(s.drop_last()[i] == s[i]);
        assert(s[i].key != s.last().key);
        assert(entries_map(r) == entries_map(s.drop_last()).remove(s[i].key).insert(
            s.last().key,
            s.last().value,
        ));
        assert(entries_map(s.drop_last()).remove(s[i].key).insert(s.last().key, s.last().value)
            =~= entries_map(s.drop_last()).insert(s.last().key, s.last().value).remove(s[i].key));
        assert forall|k: DataKey| k != s[i].key implies entries_ttl(r, k) == entries_ttl(s, k) by {
            if r.last().key != k {
                assert(entries_ttl(r.drop_last(), k) == entries_ttl(s.drop_last(), k));
            }
        }
        assert(entries_ttl(r, s[i].key) == 0u32) by {
            assert(r.last().key != s[i].key);
            assert(entries_ttl(r.drop_last(), s[i].key) == 0u32);
        }
    }
}

/// A key carried by no entry has no recorded extension.
proof fn lemma_entries_ttl_absent<T>(s: Seq<Entry<T>>, k: DataKey)
    requires
        forall|i: int| 0 <= i < s.len() ==> s[i].key != k,
    ensures
        entries_ttl(s, k) == 0u32,
    decreases s.len(),
{
    if s.len() > 0 {
        assert(forall|i: int|
            0 <= i < s.drop_last().len() ==> s.drop_last()[i] == s[i]);
        lemma_entries_ttl_absent(s.drop_last(), k);
    }
}

/// Appending an entry with a fresh key adds exactly that binding.
proof fn lemma_entries_map_push<T>(s: Seq<Entry<T>>, e: Entry<T>)
    requires
        keys_unique(s),
        forall|i: int| 0 <= i < s.len() ==> s[i].key != e.key,
    ensures
        keys_unique(s.push(e)),
        entries_map(s.push(e)) == entries_map(s).insert(e.key, e.value),
        entries_ttl(s.push(e), e.key) == e.ttl,
        forall|k: DataKey| k != e.key ==> entries_ttl(s.push(e), k) == entries_ttl(s, k),
{
    let p = s.push(e);
    assert(p.drop_last() =~= s);
    assert(p.last() == e);
    assert forall|a: int, b: int| 0 <= a < b < p.len() implies p[a].key != p[b].key by {
        if b < p.len() - 1 {
            assert(p[a] == s[a] && p[b] == s[b]);
        } else {
            assert(p[a] == s[a] && p[b] == e);
        }
    }
}

/// One storage tier: a keyed run of records, plus the extension bought for
/// the tier as a whole where the tier's lifetime is instance-scoped.
pub struct Tier<T> {
    pub storage_type: StorageType,
    pub entries: Vec<Entry<T>>,
    pub instance_ttl: u32,
}

impl<T> Tier<T> {
    /// No key is recorded twice.
    pub open spec fn wf(self) -> bool {
        keys_unique(self.entries@)
    }

    /// What the tier holds, as a map from keys to values.
    pub open spec fn contents(self) -> Map<DataKey, T> {
        entries_map(self.entries@)
    }

    /// The extension bought for a key so far, in ledger ticks; zero for a key
    /// never bumped, and zero for an absent key.
    pub open spec fn ttl_of(self, k: DataKey) -> u32 {
        entries_ttl(self.entries@, k)
    }

    /// Position of the entry holding `key`, scanning from the front.
    fn find(&self, key: &DataKey) -> (r: Option<usize>)
        ensures
            match r {
                Some(i) => 0 <= i < self.entries@.len() && self.entries@[i as int].key == *key,
                None => forall|i: int| 0 <= i < self.entries@.len() ==> self.entries@[i].key != *key,
            },
    {
        let mut i: usize = 0;
        while i < self.entries.len()
            invariant
                0 <= i <= self.entries@.len(),
                forall|j: int| 0 <= j < i ==> self.entries@[j].key != *key,
            decreases self.entries@.len() - i,
        {
            if self.entries[i].key == *key {
                return Some(i);
            }
            i = i + 1;
        }
        None
    }

    /// Whether the tier holds the key.
    pub fn has(&self, key: &DataKey) -> (r: bool)
        ensures
            r == self.contents().contains_key(*key),
    {
        proof {
            lemma_entries_map_dom(self.entries@, *key);
        }
        self.find(key).is_some()
    }

    /// Look the key up; a missing key is reported, not a fault.
    pub fn load(&self, key: &DataKey) -> (r: Option<&T>)
        requires
            self.wf(),
        ensures
            match r {
                Some(v) => self.contents().contains_key(*key) && *v == self.contents()[*key],
                None => !self.contents().contains_key(*key),
            },
    {
        proof {
            lemma_entries_map_dom(self.entries@, *key);
        }
        match self.find(key) {
            Some(i) => {
                proof {
                    lemma_entries_map_index(self.entries@, i as int);
                }
                Some(&self.entries[i].value)
            },
            None => None,
        }
    }

    /// Store the value under the key, replacing any previous value. The
    /// extension bought for each key is unaffected.
    pub fn save(&mut self, key: &DataKey, value: T)
        requires
            old(self).wf(),
        ensures
            final(self).wf(),
            final(self).contents() == old(self).contents().insert(*key, value),
            forall|k: DataKey| final(self).ttl_of(k) == old(self).ttl_of(k),
            final(self).storage_type == old(self).storage_type,
            final(self).instance_ttl == old(self).instance_ttl,
    {
        let ghost s0 = self.entries@;
        let ttl = match self.find(key) {
            Some(i) => {
                proof {
                    lemma_entries_map_index(self.entries@, i as int);
                    lemma_entries_map_remove(self.entries@, i as int);
                }
                let e = self.entries.remove(i);
                e.ttl
            },
            None => {
                proof {
                    lemma_entries_map_dom(self.entries@, *key);
                    lemma_entries_ttl_absent(self.entries@, *key);
                }
                0u32
            },
        };
        proof {
            lemma_entries_map_dom(self.entries@, *key);
            lemma_entries_map_push(self.entries@, Entry { key: *key, value, ttl });
            assert(entries_map(self.entries@).insert(*key, value) =~= entries_map(s0).insert(
                *key,
                value,
            ));
        }
        self.entries.push(Entry { key: *key, value, ttl });
    }

    /// Forget the key. Deleting an absent key changes nothing.
    pub fn delete(&mut self, key: &DataKey)
        requires
            old(self).wf(),
        ensures
            final(self).wf(),
            final(self).contents() == old(self).contents().remove(*key),
            final(self).ttl_of(*key) == 0u32,
            forall|k: DataKey| k != *key ==> final(self).ttl_of(k) == old(self).ttl_of(k),
            final(self).storage_type == old(self).storage_type,
            final(self).instance_ttl == old(self).instance_ttl,
    {
        match self.find(key) {
            Some(i) => {
                proof {
                    lemma_entries_map_remove(self.entries@, i as int);
                }
                self.entries.remove(i);
            },
            None => {
                proof {
                    lemma_entries_map_dom(self.entries@, *key);
                    lemma_entries_ttl_absent(self.entries@, *key);
                    assert(entries_map(self.entries@).remove(*key) =~= entries_map(self.entries@));
                }
            },
        }
    }

    /// Extend a lifetime: whenever the extension bought so far falls short of
    /// `low_watermark` ticks, raise it to `high_watermark` ticks. A tier
    /// whose lifetime is instance-scoped ignores the key and extends the
    /// whole instance; elsewhere the key's own extension is raised, and a
    /// missing key is left alone.
    pub fn bump(&mut self, key: &DataKey, low_watermark: u32, high_watermark: u32)
        requires
            old(self).wf(),
            low_watermark <= high_watermark,
        ensures
            final(self).wf(),
            final(self).contents() == old(self).contents(),
            final(self).storage_type == old(self).storage_type,
            old(self).storage_type is Instance ==> {
                &&& final(self).instance_ttl == (if old(self).instance_ttl < low_watermark {
                    high_watermark
                } else {
                    old(self).instance_ttl
                })
                &&& final(self).instance_ttl >= low_watermark
                &&& forall|k: DataKey| final(self).ttl_of(k) == old(self).ttl_of(k)
            },
            !(old(self).storage_type is Instance) ==> {
                &&& final(self).instance_ttl == old(self).instance_ttl
                &&& forall|k: DataKey| k != *key ==> final(self).ttl_of(k) == old(self).ttl_of(k)
                &&& old(self).contents().contains_key(*key) ==> {
                    &&& final(self).ttl_of(*key) == (if old(self).ttl_of(*key) < low_watermark {
                        high_watermark
                    } else {
                        old(self).ttl_of(*key)
                    })
                    &&& final(self).ttl_of(*key) >= low_watermark
                }
                &&& !old(self).contents().contains_key(*key) ==> final(self).ttl_of(*key) == old(
                    self,
                ).ttl_of(*key)
            },
    {
        match self.storage_type {
            StorageType::Instance => {
                if self.instance_ttl < low_watermark {
                    self.instance_ttl = high_watermark;
                }
            },
            _ => {
                proof {
                    lemma_entries_map_dom(self.entries@, *key);
                }
                match self.find(key) {
                    Some(i) => {
                        proof {
                            lemma_entries_map_index(self.entries@, i as int);
                            lemma_entries_map_remove(self.entries@, i as int);
                        }
                        let ghost s0 = self.entries@;
                        let e = self.entries.remove(i);
                        let new_ttl = if e.ttl < low_watermark {
                            high_watermark
                        } else {
                            e.ttl
                        };
                        proof {
                            lemma_entries_map_dom(self.entries@, e.key);
                            lemma_entries_map_push(
                                self.entries@,
                                Entry { key: e.key, value: e.value, ttl: new_ttl },
                            );
                            assert(entries_map(self.entries@).insert(e.key, e.value) =~= entries_map(
                                s0,
                            ));
                        }
                        self.entries.push(Entry { key: e.key, value: e.value, ttl: new_ttl });
                    },
                    None => {},
                }
            },
        }
    }
}

impl<T: StorageTypeInfo> Tier<T> {
    /// An empty tier for the data type's declared storage class.
    pub fn new() -> (t: Tier<T>)
        ensures
            t.wf(),
            t.contents() == Map::<DataKey, T>::empty(),
            forall|k: DataKey| t.ttl_of(k) == 0u32,
            t.storage_type == T::storage_type_spec(),
            t.instance_ttl == 0u32,
    {
        Tier { storage_type: T::get_storage_type(), entries: Vec::new(), instance_ttl: 0 }
    }
}

/// Look a record up in its tier.
pub fn load_data<'a, T>(tier: &'a Tier<T>, key: &DataKey) -> (r: Option<&'a T>)
    requires
        tier.wf(),
    ensures
        match r {
            Some(v) => tier.contents().contains_key(*key) && *v == tier.contents()[*key],
            None => !tier.contents().contains_key(*key),
        },
{
    tier.load(key)
}

/// Whether a record exists in its tier.
pub fn has_data<T>(tier: &Tier<T>, key: &DataKey) -> (r: bool)
    ensures
        r == tier.contents().contains_key(*key),
{
    tier.has(key)
}

/// Store a record in its tier.
pub fn save_data<T>(tier: &mut Tier<T>, key: &DataKey, data: T)
    requires
        old(tier).wf(),
    ensures
        final(tier).wf(),
        final(tier).contents() == old(tier).contents().insert(*key, data),
        forall|k: DataKey| final(tier).ttl_of(k) == old(tier).ttl_of(k),
        final(tier).storage_type == old(tier).storage_type,
        final(tier).instance_ttl == old(tier).instance_ttl,
{
    tier.save(key, data)
}

/// Remove a record from its tier.
pub fn delete_data<T>(tier: &mut Tier<T>, key: &DataKey)
    requires
        old(tier).wf(),
    ensures
        final(tier).wf(),
        final(tier).contents() == old(tier).contents().remove(*key),
        final(tier).ttl_of(*key) == 0u32,
        forall|k: DataKey| k != *key ==> final(tier).ttl_of(k) == old(tier).ttl_of(k),
        final(tier).storage_type == old(tier).storage_type,
        final(tier).instance_ttl == old(tier).instance_ttl,
{
    tier.delete(key)
}

/// Extend a record's remaining lifetime so it survives at least
/// `low_watermark_seconds` more wall-clock seconds, granting
/// `high_watermark_seconds` when it falls short. Watermarks are converted to
/// whole ledger ticks, rounding up and clamped to one year.
pub fn bump_data<T>(
    tier: &mut Tier<T>,
    key: &DataKey,
    low_watermark_seconds: u64,
    high_watermark_seconds: u64,
)
    requires
        old(tier).wf(),
        low_watermark_seconds <= high_watermark_seconds,
    ensures
        final(tier).wf(),
        final(tier).contents() == old(tier).contents(),
        final(tier).storage_type == old(tier).storage_type,
        old(tier).storage_type is Instance ==> {
            &&& final(tier).instance_ttl == (if old(tier).instance_ttl
                < spec_seconds_to_ledgers(low_watermark_seconds) {
                spec_seconds_to_ledgers(high_watermark_seconds) as u32
            } else {
                old(tier).instance_ttl
            })
            &&& forall|k: DataKey| final(tier).ttl_of(k) == old(tier).ttl_of(k)
        },
        !(old(tier).storage_type is Instance) ==> {
            &&& final(tier).instance_ttl == old(tier).instance_ttl
            &&& forall|k: DataKey| k != *key ==> final(tier).ttl_of(k) == old(tier).ttl_of(k)
            &&& old(tier).contents().contains_key(*key) ==> final(tier).ttl_of(*key) == (if old(
                tier,
            ).ttl_of(*key) < spec_seconds_to_ledgers(low_watermark_seconds) {
                spec_seconds_to_ledgers(high_watermark_seconds) as u32
            } else {
                old(tier).ttl_of(*key)
            })
            &&& !old(tier).contents().contains_key(*key) ==> final(tier).ttl_of(*key) == old(
                tier,
            ).ttl_of(*key)
        },
{
    let low = seconds_to_ledgers(low_watermark_seconds);
    let high = seconds_to_ledgers(high_watermark_seconds);
    proof {
        assert(spec_seconds_to_ledgers(low_watermark_seconds) <= spec_seconds_to_ledgers(
            high_watermark_seconds,
        ));
    }
    tier.bump(key, low, high)
}

/// Look a record up and hand the outcome, found or not, to the caller's
/// handler: the error-tolerant variant of a load.
pub fn load_data_or_else<T, R, F: FnOnce(Option<&T>) -> R>(
    tier: &Tier<T>,
    key: &DataKey,
    handler: F,
) -> (r: R)
    requires
        tier.wf(),
        tier.contents().contains_key(*key) ==> forall|v: &T|
            *v == tier.contents()[*key] ==> call_requires(handler, (Some(v),)),
        !tier.contents().contains_key(*key) ==> call_requires(handler, (None::<&T>,)),
    ensures
        tier.contents().contains_key(*key) ==> exists|v: &T|
            *v == tier.contents()[*key] && call_ensures(handler, (Some(v),), r),
        !tier.contents().contains_key(*key) ==> call_ensures(handler, (None::<&T>,), r),
{
    let o = tier.load(key);
    handler(o)
}

/// A key bound, at the type level, to the data it names.
pub struct KeyedData<K, T> {
    pub key: K,
    pub _phantom: PhantomData<T>,
}

impl<K, T> KeyedData<K, T> {
    pub fn new(key: K) -> (r: Self)
        ensures
            r.key == key,
    {
        KeyedData { key, _phantom: PhantomData }
    }

    pub fn get_key(&self) -> (r: &K)
        ensures
            *r == self.key,
    {
        &self.key
    }
}

} // verus!
