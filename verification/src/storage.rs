//! The two-tier durable storage abstraction: byte-oriented repository
//! contracts, a namespace-delegating single-tier store, the cache + durable
//! composite, and the typed codec facade over them.
//!
//! The composite's reads are answered by the cache when the cache call
//! completes; the durable tier is consulted only on a cache read failure.
//! Writes go to the durable tier first and reach the cache only after the
//! durable write succeeded, so a failed call never leaves the durable tier
//! ahead of what a caller was told.

use vstd::prelude::*;

use core::marker::PhantomData;

use crate::codec::{KeyCodec, ValueCodec};
use crate::errors::StoreError;
use crate::hash::{lemma_hash_bytes_injective, HashValue};

verus! {

/// Name of one logical namespace inside an engine.
pub type ColumnFamilyName = &'static str;

/// Copies a slice of plain values into a fresh vector.
pub fn copy_slice<T: Copy>(data: &[T]) -> (r: Vec<T>)
    ensures
        r@ == data@,
{
    let mut out: Vec<T> = Vec::new();
    let mut i: usize = 0;
    while i < data.len()
        invariant
            i <= data@.len(),
            out@ == data@.subrange(0, i as int),
        decreases data@.len() - i,
    {
        out.push(data[i]);
        i = i + 1;
        proof {
            assert(out@ =~= data@.subrange(0, i as int));
        }
    }
    proof {
        assert(out@ =~= data@);
    }
    out
}

/// `m` maps `k` to exactly `v`.
pub open spec fn maps_to(m: Map<Seq<u8>, Seq<u8>>, k: Seq<u8>, v: Seq<u8>) -> bool {
    m.contains_key(k) && m[k] == v
}

/// The single-namespace slice of a namespace-qualified engine.
pub open spec fn namespace_view(
    m: Map<(Seq<char>, Seq<u8>), Seq<u8>>,
    p: Seq<char>,
) -> Map<Seq<u8>, Seq<u8>> {
    Map::new(|k: Seq<u8>| m.contains_key((p, k)), |k: Seq<u8>| m[(p, k)])
}

/// `ps` pairs each list position with a distinct entry of `m`, and every
/// entry of `m` is hit: positions and entries are in bijection.
pub open spec fn keys_match(
    m: Map<(Seq<char>, Seq<u8>), Seq<u8>>,
    ks: Seq<Vec<u8>>,
    ps: Seq<Seq<char>>,
) -> bool {
    &&& ps.len() == ks.len()
    &&& forall|i: int| 0 <= i < ks.len() ==> m.contains_key((ps[i], (#[trigger] ks[i])@))
    &&& forall|i: int, j: int|
        #![trigger ks[i], ks[j]]
        0 <= i < j < ks.len() ==> (ps[i], ks[i]@) != (ps[j], ks[j]@)
    &&& forall|k: (Seq<char>, Seq<u8>)|
        #[trigger] m.contains_key(k) ==> exists|i: int|
            0 <= i < ks.len() && (ps[i], (#[trigger] ks[i])@) == k
}

/// The listed keys enumerate `m` exactly: under some assignment of
/// namespaces, one list position per entry of `m` and one entry per
/// position.
pub open spec fn keys_of(m: Map<(Seq<char>, Seq<u8>), Seq<u8>>, ks: Seq<Vec<u8>>) -> bool {
    exists|ps: Seq<Seq<char>>| keys_match(m, ks, ps)
}

/// A batch of writes to commit together. `ops` records the queued operations
/// in order: a put carries its value, a delete carries none.
pub trait WriteBatch: Sized {
    /// The queued operations, oldest first.
    spec fn ops(&self) -> Seq<(Seq<u8>, Option<Seq<u8>>)>;

    /// Queues a put of `value` under `key`.
    fn put(&mut self, key: Vec<u8>, value: Vec<u8>) -> (r: Result<(), StoreError>)
        ensures
            r is Ok ==> final(self).ops() == old(self).ops().push((key@, Some(value@))),
            r is Err ==> final(self).ops() == old(self).ops(),
    ;

    /// Queues a delete of `key`.
    fn delete(&mut self, key: Vec<u8>) -> (r: Result<(), StoreError>)
        ensures
            r is Ok ==> final(self).ops() == old(self).ops().push((key@, None)),
            r is Err ==> final(self).ops() == old(self).ops(),
    ;
}

/// A byte-keyed store bound to one namespace.
///
/// Two ghost projections describe it: `durable()` is the authoritative
/// contents, `cached()` is what reads and membership tests are answered
/// from. A single-tier store has the two projections equal; the two-tier
/// composite keeps them separate, and a failed removal may leave the cache
/// briefly ahead of the durable tier — exactly the window the contracts
/// below expose. `backing()` is the whole engine behind the cache tier,
/// which answers the size and key enumeration hints.
pub trait Repository: Sized {
    /// Authoritative contents of the namespace.
    spec fn durable(&self) -> Map<Seq<u8>, Seq<u8>>;

    /// Contents of the tier that answers reads first.
    spec fn cached(&self) -> Map<Seq<u8>, Seq<u8>>;

    /// The whole engine (all namespaces) behind the read tier.
    spec fn backing(&self) -> Map<(Seq<char>, Seq<u8>), Seq<u8>>;

    /// Reads `key`. A completed read reports a value held by one of the two
    /// tiers, and reports absence only when some tier lacks the key.
    fn get(&self, key: &[u8]) -> (r: Result<Option<Vec<u8>>, StoreError>)
        ensures
            r matches Ok(Some(v)) ==> maps_to(self.cached(), key@, v@) || maps_to(
                self.durable(),
                key@,
                v@,
            ),
            r matches Ok(None) ==> !self.cached().contains_key(key@) || !self.durable(
            ).contains_key(key@),
    ;

    /// Writes `value` under `key`: durable tier first, cache after. On
    /// failure the cache is untouched.
    fn put(&mut self, key: Vec<u8>, value: Vec<u8>) -> (r: Result<(), StoreError>)
        ensures
            r is Ok ==> final(self).durable() == old(self).durable().insert(key@, value@) && final(self).cached() == old(self).cached().insert(key@, value@),
            r is Err ==> final(self).cached() == old(self).cached() && (final(self).durable()
                == old(self).durable() || final(self).durable() == old(self).durable().insert(
                key@,
                value@,
            )),
    ;

    /// Membership test, answered from the read tier alone.
    fn contains_key(&self, key: Vec<u8>) -> (r: Result<bool, StoreError>)
        ensures
            r matches Ok(b) ==> b == self.cached().contains_key(key@),
    ;

    /// Deletes `key`: durable tier first, cache after. On failure the cache
    /// is untouched, so a durable-tier failure leaves the old value visible.
    fn remove(&mut self, key: Vec<u8>) -> (r: Result<(), StoreError>)
        ensures
            r is Ok ==> final(self).durable() == old(self).durable().remove(key@) && final(self).cached() == old(self).cached().remove(key@),
            r is Err ==> final(self).cached() == old(self).cached() && (final(self).durable()
                == old(self).durable() || final(self).durable() == old(self).durable().remove(
                key@,
            )),
    ;

    /// Number of entries in the whole engine behind the read tier.
    fn get_len(&self) -> (r: Result<u64, StoreError>)
        ensures
            r matches Ok(n) ==> self.backing().dom().finite() && n == self.backing().dom().len(),
    ;

    /// Every key of the whole engine behind the read tier, one per entry.
    fn keys(&self) -> (r: Result<Vec<Vec<u8>>, StoreError>)
        ensures
            r matches Ok(ks) ==> self.backing().dom().finite() && ks@.len() == self.backing().dom(
            ).len() && keys_of(self.backing(), ks@),
    ;
}

/// A namespace-qualified engine: one underlying store serving several
/// logical namespaces. `contents()` maps (namespace, key) pairs to values.
/// A failed operation leaves the contents unchanged — every mutation is a
/// single bounded write, never half committed.
pub trait InnerRepository: Sized {
    /// Contents of the whole engine, keyed by namespace and key.
    spec fn contents(&self) -> Map<(Seq<char>, Seq<u8>), Seq<u8>>;

    /// Reads `key` in `prefix_name`.
    fn get(&self, prefix_name: &str, key: Vec<u8>) -> (r: Result<Option<Vec<u8>>, StoreError>)
        ensures
            r matches Ok(Some(v)) ==> self.contents().contains_key((prefix_name@, key@))
                && self.contents()[(prefix_name@, key@)] == v@,
            r matches Ok(None) ==> !self.contents().contains_key((prefix_name@, key@)),
    ;

    /// Writes `value` under `key` in `prefix_name`.
    fn put(&mut self, prefix_name: &str, key: Vec<u8>, value: Vec<u8>) -> (r: Result<
        (),
        StoreError,
    >)
        ensures
            r is Ok ==> final(self).contents() == old(self).contents().insert(
                (prefix_name@, key@),
                value@,
            ),
            r is Err ==> final(self).contents() == old(self).contents(),
    ;

    /// Membership test for `key` in `prefix_name`.
    fn contains_key(&self, prefix_name: &str, key: Vec<u8>) -> (r: Result<bool, StoreError>)
        ensures
            r matches Ok(b) ==> b == self.contents().contains_key((prefix_name@, key@)),
    ;

    /// Deletes `key` in `prefix_name`.
    fn remove(&mut self, prefix_name: &str, key: Vec<u8>) -> (r: Result<(), StoreError>)
        ensures
            r is Ok ==> final(self).contents() == old(self).contents().remove((prefix_name@, key@)),
            r is Err ==> final(self).contents() == old(self).contents(),
    ;

    /// Number of entries across all namespaces.
    fn get_len(&self) -> (r: Result<u64, StoreError>)
        ensures
            r matches Ok(n) ==> self.contents().dom().finite() && n == self.contents().dom().len(),
    ;

    /// Every key across all namespaces, one per entry.
    fn keys(&self) -> (r: Result<Vec<Vec<u8>>, StoreError>)
        ensures
            r matches Ok(ks) ==> self.contents().dom().finite() && ks@.len() == self.contents(
            ).dom().len() && keys_of(self.contents(), ks@),
    ;
}

/// A single-tier store: one namespace of one engine, read and written
/// directly. Its cached and durable projections coincide.
pub struct StorageDelegated<R: InnerRepository> {
    pub repository: R,
    pub prefix_name: ColumnFamilyName,
}

impl<R: InnerRepository> StorageDelegated<R> {
    /// Binds `repository`'s namespace `prefix_name`.
    pub fn new(repository: R, prefix_name: ColumnFamilyName) -> (r: Self)
        ensures
            r.repository == repository,
            r.prefix_name == prefix_name,
    {
        Self { repository, prefix_name }
    }
}

impl<R: InnerRepository> Repository for StorageDelegated<R> {
    open spec fn durable(&self) -> Map<Seq<u8>, Seq<u8>> {
        namespace_view(self.repository.contents(), self.prefix_name@)
    }

    open spec fn cached(&self) -> Map<Seq<u8>, Seq<u8>> {
        namespace_view(self.repository.contents(), self.prefix_name@)
    }

    open spec fn backing(&self) -> Map<(Seq<char>, Seq<u8>), Seq<u8>> {
        self.repository.contents()
    }

    fn get(&self, key: &[u8]) -> (r: Result<Option<Vec<u8>>, StoreError>) {
        self.repository.get(self.prefix_name, copy_slice(key))
    }

    fn put(&mut self, key: Vec<u8>, value: Vec<u8>) -> (r: Result<(), StoreError>) {
        let ghost pre = self.repository.contents();
        let ghost p = self.prefix_name@;
        let ghost k = key@;
        let ghost v = value@;
        let r = self.repository.put(self.prefix_name, key, value);
        proof {
            if r is Ok {
                assert(namespace_view(pre.insert((p, k), v), p) =~= namespace_view(pre, p).insert(
                    k,
                    v,
                ));
            }
        }
        r
    }

    fn contains_key(&self, key: Vec<u8>) -> (r: Result<bool, StoreError>) {
        self.repository.contains_key(self.prefix_name, key)
    }

    fn remove(&mut self, key: Vec<u8>) -> (r: Result<(), StoreError>) {
        let ghost pre = self.repository.contents();
        let ghost p = self.prefix_name@;
        let ghost k = key@;
        let r = self.repository.remove(self.prefix_name, key);
        proof {
            if r is Ok {
                assert(namespace_view(pre.remove((p, k)), p) =~= namespace_view(pre, p).remove(k));
            }
        }
        r
    }

    fn get_len(&self) -> (r: Result<u64, StoreError>) {
        self.repository.get_len()
    }

    fn keys(&self) -> (r: Result<Vec<Vec<u8>>, StoreError>) {
        self.repository.keys()
    }
}

/// The two-tier composite: a cache engine in front of a durable engine,
/// bound to one namespace. The durable tier is authoritative; the cache is
/// a write-through accelerator.
pub struct Storage<C: InnerRepository, D: InnerRepository> {
    pub cache: C,
    pub db: D,
    pub prefix_name: ColumnFamilyName,
}

impl<C: InnerRepository, D: InnerRepository> Storage<C, D> {
    /// Binds namespace `prefix_name` across `cache` and `db`.
    pub fn new(cache: C, db: D, prefix_name: ColumnFamilyName) -> (r: Self)
        ensures
            r.cache == cache,
            r.db == db,
            r.prefix_name == prefix_name,
    {
        Storage { cache, db, prefix_name }
    }
}

impl<C: InnerRepository, D: InnerRepository> Repository for Storage<C, D> {
    open spec fn durable(&self) -> Map<Seq<u8>, Seq<u8>> {
        namespace_view(self.db.contents(), self.prefix_name@)
    }

    open spec fn cached(&self) -> Map<Seq<u8>, Seq<u8>> {
        namespace_view(self.cache.contents(), self.prefix_name@)
    }

    open spec fn backing(&self) -> Map<(Seq<char>, Seq<u8>), Seq<u8>> {
        self.cache.contents()
    }

    fn get(&self, key: &[u8]) -> (r: Result<Option<Vec<u8>>, StoreError>) {
        let key_vec = copy_slice(key);
        match self.cache.get(self.prefix_name, key_vec) {
            Ok(v) => Ok(v),
            Err(_) => self.db.get(self.prefix_name, copy_slice(key)),
        }
    }

    fn put(&mut self, key: Vec<u8>, value: Vec<u8>) -> (r: Result<(), StoreError>) {
        let ghost pre_cache = self.cache.contents();
        let ghost pre_db = self.db.contents();
        let ghost p = self.prefix_name@;
        let ghost k = key@;
        let ghost v = value@;
        let key_for_cache = copy_slice(key.as_slice());
        let value_for_cache = copy_slice(value.as_slice());
        match self.db.put(self.prefix_name, key, value) {
            Ok(_) => {
                proof {
                    assert(namespace_view(pre_db.insert((p, k), v), p) =~= namespace_view(
                        pre_db,
                        p,
                    ).insert(k, v));
                }
                let r = self.cache.put(self.prefix_name, key_for_cache, value_for_cache);
                proof {
                    if r is Ok {
                        assert(namespace_view(pre_cache.insert((p, k), v), p) =~= namespace_view(
                            pre_cache,
                            p,
                        ).insert(k, v));
                    }
                }
                r
            },
            Err(e) => Err(e),
        }
    }

    fn contains_key(&self, key: Vec<u8>) -> (r: Result<bool, StoreError>) {
        self.cache.contains_key(self.prefix_name, key)
    }

    fn remove(&mut self, key: Vec<u8>) -> (r: Result<(), StoreError>) {
        let ghost pre_cache = self.cache.contents();
        let ghost pre_db = self.db.contents();
        let ghost p = self.prefix_name@;
        let ghost k = key@;
        let key_for_cache = copy_slice(key.as_slice());
        match self.db.remove(self.prefix_name, key) {
            Ok(_) => {
                proof {
                    assert(namespace_view(pre_db.remove((p, k)), p) =~= namespace_view(
                        pre_db,
                        p,
                    ).remove(k));
                }
                let r = self.cache.remove(self.prefix_name, key_for_cache);
                proof {
                    if r is Ok {
                        assert(namespace_view(pre_cache.remove((p, k)), p) =~= namespace_view(
                            pre_cache,
                            p,
                        ).remove(k));
                    }
                }
                r
            },
            Err(e) => Err(e),
        }
    }

    fn get_len(&self) -> (r: Result<u64, StoreError>) {
        self.cache.get_len()
    }

    fn keys(&self) -> (r: Result<Vec<Vec<u8>>, StoreError>) {
        self.cache.keys()
    }
}

/// Read-after-write law: once a put has succeeded, both tiers hold the new
/// value, so a read of the same key that completes without an operational
/// error answers exactly that value — immediately from the cache, and from
/// the durable tier alone after the cache is cleared.
pub proof fn lemma_read_after_write(
    cached: Map<Seq<u8>, Seq<u8>>,
    durable: Map<Seq<u8>, Seq<u8>>,
    k: Seq<u8>,
    v: Seq<u8>,
    r: Option<Seq<u8>>,
)
    requires
        maps_to(cached, k, v),
        maps_to(durable, k, v),
        r matches Some(w) ==> maps_to(cached, k, w) || maps_to(durable, k, w),
        r is None ==> !cached.contains_key(k) || !durable.contains_key(k),
    ensures
        r == Some(v),
{
}

/// Remove atomicity law: when the durable delete under a remove fails, the
/// durable tier is unchanged and the cache is untouched, so a later read of
/// the key that completes still observes the old value — no partial
/// visibility of the removal.
pub proof fn lemma_failed_remove_keeps_value(
    cached0: Map<Seq<u8>, Seq<u8>>,
    durable0: Map<Seq<u8>, Seq<u8>>,
    cached1: Map<Seq<u8>, Seq<u8>>,
    durable1: Map<Seq<u8>, Seq<u8>>,
    k: Seq<u8>,
    v: Seq<u8>,
    r: Option<Seq<u8>>,
)
    requires
        maps_to(cached0, k, v),
        maps_to(durable0, k, v),
        cached1 == cached0,
        durable1 == durable0,
        r matches Some(w) ==> maps_to(cached1, k, w) || maps_to(durable1, k, w),
        r is None ==> !cached1.contains_key(k) || !durable1.contains_key(k),
    ensures
        r == Some(v),
{
}

impl KeyCodec for HashValue {
    open spec fn valid_key(&self) -> bool {
        true
    }

    open spec fn key_bytes(&self) -> Seq<u8> {
        self.bytes()
    }

    fn encode_key(&self) -> (r: Result<Vec<u8>, StoreError>) {
        Ok(self.to_vec())
    }

    fn decode_key(data: &[u8]) -> (r: Result<Self, StoreError>) {
        let r = HashValue::from_slice(data);
        proof {
            if exists|k: HashValue| k.valid_key() && k.key_bytes() == data@ {
                let k = choose|k: HashValue| k.valid_key() && k.key_bytes() == data@;
                assert(k.bytes().len() == 32);
            }
        }
        r
    }

    proof fn key_bytes_injective(a: Self, b: Self) {
        lemma_hash_bytes_injective(a, b);
    }
}

impl ValueCodec for HashValue {
    open spec fn valid_value(&self) -> bool {
        true
    }

    open spec fn value_bytes(&self) -> Seq<u8> {
        self.bytes()
    }

    fn encode_value(&self) -> (r: Result<Vec<u8>, StoreError>) {
        Ok(self.to_vec())
    }

    fn decode_value(data: &[u8]) -> (r: Result<Self, StoreError>) {
        let r = HashValue::from_slice(data);
        proof {
            if exists|v: HashValue| v.valid_value() && v.value_bytes() == data@ {
                let v = choose|v: HashValue| v.valid_value() && v.value_bytes() == data@;
                assert(v.bytes().len() == 32);
            }
        }
        r
    }

    proof fn value_bytes_injective(a: Self, b: Self) {
        lemma_hash_bytes_injective(a, b);
    }
}

/// The typed facade: encodes keys and values through their codecs and
/// forwards to a byte-level repository. Decode failure is surfaced as
/// corruption, never ignored.
pub struct CodecStorage<K: KeyCodec, V: ValueCodec, R: Repository> {
    pub store: R,
    pub k: PhantomData<K>,
    pub v: PhantomData<V>,
}

impl<K: KeyCodec, V: ValueCodec, R: Repository> CodecStorage<K, V, R> {
    /// Authoritative byte contents under this facade.
    pub open spec fn durable(&self) -> Map<Seq<u8>, Seq<u8>> {
        self.store.durable()
    }

    /// Read-tier byte contents under this facade.
    pub open spec fn cached(&self) -> Map<Seq<u8>, Seq<u8>> {
        self.store.cached()
    }

    /// The whole engine behind the read tier.
    pub open spec fn backing(&self) -> Map<(Seq<char>, Seq<u8>), Seq<u8>> {
        self.store.backing()
    }

    /// Wraps `store` in the typed facade.
    pub fn new(store: R) -> (r: Self)
        ensures
            r.store == store,
    {
        Self { store, k: PhantomData, v: PhantomData }
    }

    /// Reads the value stored under `key`, decoded.
    pub fn get(&self, key: K) -> (r: Result<Option<V>, StoreError>)
        ensures
            r matches Ok(Some(v)) ==> key.valid_key() && v.valid_value() && (maps_to(
                self.cached(),
                key.key_bytes(),
                v.value_bytes(),
            ) || maps_to(self.durable(), key.key_bytes(), v.value_bytes())),
            r matches Ok(None) ==> key.valid_key() && (!self.cached().contains_key(key.key_bytes())
                || !self.durable().contains_key(key.key_bytes())),
    {
        let kb = match key.encode_key() {
            Ok(b) => b,
            Err(e) => {
                return Err(e);
            },
        };
        match self.store.get(kb.as_slice()) {
            Ok(Some(raw)) => match V::decode_value(raw.as_slice()) {
                Ok(v) => Ok(Some(v)),
                Err(e) => Err(e),
            },
            Ok(None) => Ok(None),
            Err(e) => Err(e),
        }
    }

    /// Writes `value` under `key`, encoded.
    pub fn put(&mut self, key: K, value: V) -> (r: Result<(), StoreError>)
        ensures
            r is Ok ==> key.valid_key() && value.valid_value() && final(self).durable() == old(self).durable().insert(key.key_bytes(), value.value_bytes()) && final(self).cached() == old(self).cached().insert(key.key_bytes(), value.value_bytes()),
            r is Err ==> final(self).cached() == old(self).cached() && (final(self).durable()
                == old(self).durable() || final(self).durable() == old(self).durable().insert(
                key.key_bytes(),
                value.value_bytes(),
            )),
    {
        let kb = match key.encode_key() {
            Ok(b) => b,
            Err(e) => {
                return Err(e);
            },
        };
        let vb = match value.encode_value() {
            Ok(b) => b,
            Err(e) => {
                return Err(e);
            },
        };
        self.store.put(kb, vb)
    }

    /// Membership test for `key`, answered from the read tier.
    pub fn contains_key(&self, key: K) -> (r: Result<bool, StoreError>)
        ensures
            r matches Ok(b) ==> key.valid_key() && b == self.cached().contains_key(key.key_bytes()),
    {
        let kb = match key.encode_key() {
            Ok(b) => b,
            Err(e) => {
                return Err(e);
            },
        };
        self.store.contains_key(kb)
    }

    /// Deletes the entry stored under `key`.
    pub fn remove(&mut self, key: K) -> (r: Result<(), StoreError>)
        ensures
            r is Ok ==> key.valid_key() && final(self).durable() == old(self).durable().remove(
                key.key_bytes(),
            ) && final(self).cached() == old(self).cached().remove(key.key_bytes()),
            r is Err ==> final(self).cached() == old(self).cached() && (final(self).durable()
                == old(self).durable() || final(self).durable() == old(self).durable().remove(
                key.key_bytes(),
            )),
    {
        let kb = match key.encode_key() {
            Ok(b) => b,
            Err(e) => {
                return Err(e);
            },
        };
        self.store.remove(kb)
    }

    /// Number of entries in the whole engine behind the read tier.
    pub fn get_len(&self) -> (r: Result<u64, StoreError>)
        ensures
            r matches Ok(n) ==> self.backing().dom().finite() && n == self.backing().dom().len(),
    {
        self.store.get_len()
    }

    /// Every key of the whole engine behind the read tier.
    pub fn keys(&self) -> (r: Result<Vec<Vec<u8>>, StoreError>)
        ensures
            r matches Ok(ks) ==> self.backing().dom().finite() && ks@.len() == self.backing().dom(
            ).len() && keys_of(self.backing(), ks@),
    {
        self.store.keys()
    }
}

} // verus!
