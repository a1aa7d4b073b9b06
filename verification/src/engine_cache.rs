//! Resilience pieces of the async engine: a TTL read cache over an LRU
//! store, and a bounded round-robin connection pool.  A cache entry carries
//! two numeric values and one text value together with the second it was
//! written and its time to live; balance reads use the numbers, payment
//! status reads use the text.

use vstd::prelude::*;

verus! {

#[verifier::external_type_specification]
#[verifier::external_body]
#[verifier::reject_recursive_types(K)]
#[verifier::reject_recursive_types(V)]
#[verifier::reject_recursive_types(S)]
pub struct ExLruCache<K, V, S>(lru::LruCache<K, V, S>);

/// One cached entry: two numbers, a text, the write time, the time to live.
pub type CacheEntry = (u64, u64, String, u64, u64);

/// The LRU store behind the read cache.
pub type CacheStore = lru::LruCache<String, CacheEntry>;

/// What the LRU store holds, as a map from key text to entry content.
pub uninterp spec fn lru_contents(c: CacheStore) -> Map<Seq<char>, (u64, u64, Seq<char>, u64, u64)>;

/// Relies on `lru::LruCache::new`: a fresh cache holds nothing.  The
/// capacity must be positive.
#[verifier::external_body]
fn lru_new(cap: usize) -> (r: CacheStore)
    requires
        cap >= 1,
    ensures
        forall|k: Seq<char>| !lru_contents(r).contains_key(k),
{
    lru::LruCache::new(std::num::NonZeroUsize::new(cap).unwrap())
}

/// Relies on `lru::LruCache::get`: the entry under the key, if one is held;
/// reading only reorders recency, so the contents stay as they were.
#[verifier::external_body]
fn lru_get(c: &mut CacheStore, k: &str) -> (r: Option<CacheEntry>)
    ensures
        lru_contents(*final(c)) == lru_contents(*old(c)),
        match r {
            Some(v) => lru_contents(*old(c)).contains_key(k@) && lru_contents(*old(c))[k@] == (
                v.0,
                v.1,
                v.2@,
                v.3,
                v.4,
            ),
            None => !lru_contents(*old(c)).contains_key(k@),
        },
{
    c.get(k).cloned()
}

/// Relies on `lru::LruCache::put`: the key now holds the value; every other
/// surviving entry is one it already held, though a full cache may have let
/// its least recently used entry go.
#[verifier::external_body]
fn lru_put(c: &mut CacheStore, k: String, v: CacheEntry)
    ensures
        lru_contents(*final(c)).contains_key(k@),
        lru_contents(*final(c))[k@] == (v.0, v.1, v.2@, v.3, v.4),
        forall|k2: Seq<char>|
            #![trigger lru_contents(*final(c)).contains_key(k2)]
            lru_contents(*final(c)).contains_key(k2) && k2 != k@ ==> lru_contents(
                *old(c),
            ).contains_key(k2) && lru_contents(*final(c))[k2] == lru_contents(*old(c))[k2],
{
    c.put(k, v);
}

/// A read-through cache with per-entry time to live, over an LRU store of a
/// thousand entries.
pub struct ReadCache {
    inner: CacheStore,
}

impl ReadCache {
    /// What the cache holds, keyed by entry name.
    pub closed spec fn view(self) -> Map<Seq<char>, (u64, u64, Seq<char>, u64, u64)> {
        lru_contents(self.inner)
    }

    pub fn new() -> (r: Self)
        ensures
            forall|k: Seq<char>| !r@.contains_key(k),
    {
        ReadCache { inner: lru_new(1000) }
    }

    /// Write an entry: two numbers, a text, the time of the write and how
    /// long it stays fresh.  The entry is then held; any other surviving
    /// entry is unchanged from before.
    pub fn store(&mut self, key: &str, a: u64, b: u64, text: String, now: u64, ttl: u64)
        ensures
            final(self)@.contains_key(key@),
            final(self)@[key@] == (a, b, text@, now, ttl),
            forall|k2: Seq<char>|
                #![trigger final(self)@.contains_key(k2)]
                final(self)@.contains_key(k2) && k2 != key@ ==> old(self)@.contains_key(k2)
                    && final(self)@[k2] == old(self)@[k2],
    {
        let ghost pre = lru_contents(self.inner);
        let k = key.to_owned();
        lru_put(&mut self.inner, k, (a, b, text, now, ttl));
        proof {
            let post = lru_contents(self.inner);
            assert forall|k2: Seq<char>| post.contains_key(k2) && k2 != key@ implies
                pre.contains_key(k2) && post[k2] == pre[k2] by {}
        }
    }

    /// Read an entry if it is held and still fresh: an entry written at `t`
    /// with time to live `ttl` answers reads strictly before `t + ttl` and
    /// no later.  Reading changes nothing.
    pub fn lookup(&mut self, key: &str, now: u64) -> (r: Option<(u64, u64, String)>)
        ensures
            final(self)@ == old(self)@,
            match r {
                Some(v) => old(self)@.contains_key(key@) && old(self)@[key@].0 == v.0 && old(self)@[key@].1 == v.1 && old(self)@[key@].2 == v.2@ && old(self)@[key@].3 + old(self)@[key@].4 > now,
                None => !old(self)@.contains_key(key@) || old(self)@[key@].3 + old(self)@[key@].4
                    <= now,
            },
    {
        match lru_get(&mut self.inner, key) {
            Some(v) => {
                // Freshness: the write time plus the time to live must still
                // lie ahead of the clock.  The sum is taken exactly.
                let fresh = if v.3 <= u64::MAX - v.4 {
                    v.3 + v.4 > now
                } else {
                    true
                };
                if fresh {
                    Some((v.0, v.1, v.2))
                } else {
                    None
                }
            },
            None => None,
        }
    }
}

/// A bounded pool of connection slots handed out round robin.  The library
/// tracks only slot indices; the handles themselves live with the caller.
pub struct ConnectionPool {
    slots: usize,
    current_index: usize,
}

impl ConnectionPool {
    /// The index about to be handed out stays inside the pool.
    pub closed spec fn wf(self) -> bool {
        if self.slots == 0 {
            self.current_index == 0
        } else {
            self.current_index < self.slots
        }
    }

    /// How many connection slots the pool holds.
    pub closed spec fn spec_slots(self) -> usize {
        self.slots
    }

    /// The slot the next acquisition returns.
    pub closed spec fn spec_current_index(self) -> usize {
        self.current_index
    }

    pub fn new() -> (r: Self)
        ensures
            r.wf(),
            r.spec_slots() == 0,
            r.spec_current_index() == 0,
    {
        ConnectionPool { slots: 0, current_index: 0 }
    }

    /// Register one more connection slot.
    pub fn add_node(&mut self) -> (r: usize)
        requires
            old(self).wf(),
            old(self).spec_slots() < usize::MAX,
        ensures
            final(self).wf(),
            final(self).spec_slots() == old(self).spec_slots() + 1,
            final(self).spec_current_index() == old(self).spec_current_index(),
            r == old(self).spec_slots(),
    {
        let idx = self.slots;
        self.slots = self.slots + 1;
        idx
    }

    /// The next slot, round robin; an empty pool has none, and the caller
    /// falls back to its primary handle.
    pub fn get_next(&mut self) -> (r: Option<usize>)
        requires
            old(self).wf(),
        ensures
            final(self).wf(),
            final(self).spec_slots() == old(self).spec_slots(),
            old(self).spec_slots() == 0 ==> (r is None && final(self).spec_current_index() == old(self).spec_current_index()),
            old(self).spec_slots() > 0 ==> (r == Some(old(self).spec_current_index()) && final(self).spec_current_index() as int == (old(self).spec_current_index() + 1) % (old(self).spec_slots() as int)),
    {
        if self.slots == 0 {
            return None;
        }
        let idx = self.current_index;
        self.current_index = (self.current_index + 1) % self.slots;
        Some(idx)
    }
}

/// The decision core of the async engine: a TTL read cache in front of the
/// runtime's balance and payment-status reads, and the connection pool.
/// The caller performs the actual runtime calls and feeds results back.
pub struct AsyncLightningEngine {
    cache: ReadCache,
    pool: ConnectionPool,
    max_connections: usize,
}

impl AsyncLightningEngine {
    pub closed spec fn wf(self) -> bool {
        self.pool.wf()
    }

    /// The cached entries.
    pub closed spec fn spec_cache(self) -> Map<Seq<char>, (u64, u64, Seq<char>, u64, u64)> {
        self.cache@
    }

    /// The connection pool.
    pub closed spec fn spec_pool(self) -> ConnectionPool {
        self.pool
    }

    /// The most connections the pool may grow to.
    pub closed spec fn spec_max_connections(self) -> usize {
        self.max_connections
    }

    pub fn new() -> (r: Self)
        ensures
            r.wf(),
            forall|k: Seq<char>| !r.spec_cache().contains_key(k),
            r.spec_pool().spec_slots() == 0,
            r.spec_max_connections() == 10,
    {
        AsyncLightningEngine { cache: ReadCache::new(), pool: ConnectionPool::new(), max_connections: 10 }
    }

    /// Register one live runtime handle, up to the bound; the result says
    /// whether the pool took it.
    pub fn register_connection(&mut self) -> (r: bool)
        requires
            old(self).wf(),
        ensures
            final(self).wf(),
            final(self).spec_cache() == old(self).spec_cache(),
            final(self).spec_max_connections() == old(self).spec_max_connections(),
            r == (old(self).spec_pool().spec_slots() < old(self).spec_max_connections()),
            r ==> final(self).spec_pool().spec_slots() == old(self).spec_pool().spec_slots() + 1,
            !r ==> final(self).spec_pool() == old(self).spec_pool(),
    {
        if self.pool.slots < self.max_connections {
            self.pool.add_node();
            true
        } else {
            false
        }
    }

    /// The pool slot to use for the next runtime call, round robin.
    pub fn acquire_connection(&mut self) -> (r: Option<usize>)
        requires
            old(self).wf(),
        ensures
            final(self).wf(),
            final(self).spec_cache() == old(self).spec_cache(),
            final(self).spec_max_connections() == old(self).spec_max_connections(),
            old(self).spec_pool().spec_slots() == 0 <==> r is None,
            old(self).spec_pool().spec_slots() > 0 ==> r == Some(
                old(self).spec_pool().spec_current_index(),
            ),
    {
        self.pool.get_next()
    }

    /// The cached balance pair, if one is held and still fresh.
    pub fn cached_balance(&mut self, now: u64) -> (r: Option<(u64, u64)>)
        requires
            old(self).wf(),
        ensures
            final(self).wf(),
            final(self).spec_cache() == old(self).spec_cache(),
            final(self).spec_pool() == old(self).spec_pool(),
            final(self).spec_max_connections() == old(self).spec_max_connections(),
            match r {
                Some(b) => old(self).spec_cache().contains_key("balance"@) && old(self).spec_cache()["balance"@].0 == b.0 && old(self).spec_cache()["balance"@].1 == b.1
                    && old(self).spec_cache()["balance"@].3 + old(self).spec_cache()["balance"@].4
                    > now,
                None => !old(self).spec_cache().contains_key("balance"@) || old(self).spec_cache()["balance"@].3 + old(self).spec_cache()["balance"@].4 <= now,
            },
    {
        match self.cache.lookup("balance", now) {
            Some(v) => Some((v.0, v.1)),
            None => None,
        }
    }

    /// Record a fresh balance pair from the runtime; it stays fresh for
    /// thirty seconds.
    pub fn record_balance(&mut self, onchain: u64, lightning: u64, now: u64)
        requires
            old(self).wf(),
        ensures
            final(self).wf(),
            final(self).spec_pool() == old(self).spec_pool(),
            final(self).spec_max_connections() == old(self).spec_max_connections(),
            final(self).spec_cache().contains_key("balance"@),
            final(self).spec_cache()["balance"@] == (
                onchain,
                lightning,
                Seq::<char>::empty(),
                now,
                30u64,
            ),
            forall|k2: Seq<char>|
                #![trigger final(self).spec_cache().contains_key(k2)]
                final(self).spec_cache().contains_key(k2) && k2 != "balance"@ ==> old(self).spec_cache().contains_key(k2) && final(self).spec_cache()[k2] == old(self).spec_cache()[k2],
    {
        let ghost pre = self.cache@;
        self.cache.store("balance", onchain, lightning, String::new(), now, 30);
        proof {
            let post = self.cache@;
            assert forall|k2: Seq<char>| post.contains_key(k2) && k2 != "balance"@ implies
                pre.contains_key(k2) && post[k2] == pre[k2] by {}
        }
    }
}

impl AsyncLightningEngine {
    /// The status of one payment, through the cache: a fresh cached status
    /// answers directly; otherwise the runtime stub's answer is recorded
    /// for a minute and returned.
    pub fn get_payment_status(&mut self, payment_hash: &str, now: u64) -> (r: String)
        requires
            old(self).wf(),
        ensures
            final(self).wf(),
            final(self).spec_pool() == old(self).spec_pool(),
            final(self).spec_max_connections() == old(self).spec_max_connections(),
            (old(self).spec_cache().contains_key("payment_status_"@ + payment_hash@) && old(self).spec_cache()["payment_status_"@ + payment_hash@].3 + old(self).spec_cache()["payment_status_"@ + payment_hash@].4 > now) ==> (r@ == old(self).spec_cache()["payment_status_"@ + payment_hash@].2 && final(self).spec_cache() == old(self).spec_cache()),
            !(old(self).spec_cache().contains_key("payment_status_"@ + payment_hash@) && old(self).spec_cache()["payment_status_"@ + payment_hash@].3 + old(self).spec_cache()["payment_status_"@ + payment_hash@].4 > now) ==> (r@ == "SUCCEEDED"@
                && final(self).spec_cache().contains_key("payment_status_"@ + payment_hash@)
                && final(self).spec_cache()["payment_status_"@ + payment_hash@] == (
                0u64,
                0u64,
                "SUCCEEDED"@,
                now,
                60u64,
            ) && (forall|k2: Seq<char>|
                #![trigger final(self).spec_cache().contains_key(k2)]
                final(self).spec_cache().contains_key(k2) && k2 != "payment_status_"@
                    + payment_hash@ ==> old(self).spec_cache().contains_key(k2) && final(self).spec_cache()[k2] == old(self).spec_cache()[k2])),
    {
        let key = String::from_str("payment_status_").concat(payment_hash);
        match self.cache.lookup(key.as_str(), now) {
            Some(v) => v.2,
            None => {
                let status = String::from_str("SUCCEEDED");
                let ghost pre = self.cache@;
                self.cache.store(key.as_str(), 0, 0, status.clone(), now, 60);
                proof {
                    let post = self.cache@;
                    assert forall|k2: Seq<char>|
                        post.contains_key(k2) && k2 != "payment_status_"@ + payment_hash@ implies
                        pre.contains_key(k2) && post[k2] == pre[k2] by {}
                }
                status
            },
        }
    }
}

} // verus!
