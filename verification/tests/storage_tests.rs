use std::collections::HashMap;

use ledger_sync::errors::StoreError;
use ledger_sync::hash::HashValue;
use ledger_sync::storage::{CodecStorage, InnerRepository, Repository, Storage, StorageDelegated};

/// Plain in-memory engine with switchable fault injection, standing in for
/// the durable backend the library leaves to its callers.
#[derive(Default)]
struct MemEngine {
    entries: HashMap<(String, Vec<u8>), Vec<u8>>,
    fail_gets: bool,
    fail_puts: bool,
    fail_removes: bool,
}

impl InnerRepository for MemEngine {
    // Ghost projection: never called at runtime.
    fn contents(
        &self,
    ) -> vstd::map::Map<(vstd::seq::Seq<char>, vstd::seq::Seq<u8>), vstd::seq::Seq<u8>> {
        unreachable!()
    }

    fn get(&self, prefix_name: &str, key: Vec<u8>) -> Result<Option<Vec<u8>>, StoreError> {
        if self.fail_gets {
            return Err(StoreError::Backend);
        }
        Ok(self.entries.get(&(prefix_name.to_string(), key)).cloned())
    }

    fn put(&mut self, prefix_name: &str, key: Vec<u8>, value: Vec<u8>) -> Result<(), StoreError> {
        if self.fail_puts {
            return Err(StoreError::Backend);
        }
        self.entries.insert((prefix_name.to_string(), key), value);
        Ok(())
    }

    fn contains_key(&self, prefix_name: &str, key: Vec<u8>) -> Result<bool, StoreError> {
        Ok(self.entries.contains_key(&(prefix_name.to_string(), key)))
    }

    fn remove(&mut self, prefix_name: &str, key: Vec<u8>) -> Result<(), StoreError> {
        if self.fail_removes {
            return Err(StoreError::Backend);
        }
        self.entries.remove(&(prefix_name.to_string(), key));
        Ok(())
    }

    fn get_len(&self) -> Result<u64, StoreError> {
        Ok(self.entries.len() as u64)
    }

    fn keys(&self) -> Result<Vec<Vec<u8>>, StoreError> {
        Ok(self.entries.keys().map(|(_, k)| k.clone()).collect())
    }
}

const NS: &str = "blocks";

#[test]
fn put_then_get_returns_value_from_both_tiers() {
    let mut storage = Storage::new(MemEngine::default(), MemEngine::default(), NS);
    storage.put(b"k".to_vec(), b"v".to_vec()).unwrap();
    // Immediate read is answered by the cache.
    assert_eq!(storage.get(b"k").unwrap(), Some(b"v".to_vec()));
    // A durable-only read (as after clearing the cache) sees the same value.
    assert_eq!(
        storage.db.get(NS, b"k".to_vec()).unwrap(),
        Some(b"v".to_vec())
    );
    let cache_only = StorageDelegated::new(storage.cache, NS);
    assert_eq!(cache_only.get(b"k").unwrap(), Some(b"v".to_vec()));
}

#[test]
fn failed_durable_put_leaves_both_tiers_untouched() {
    let mut db = MemEngine::default();
    db.fail_puts = true;
    let mut storage = Storage::new(MemEngine::default(), db, NS);
    assert_eq!(
        storage.put(b"k".to_vec(), b"v".to_vec()),
        Err(StoreError::Backend)
    );
    assert_eq!(storage.get(b"k").unwrap(), None);
    assert_eq!(storage.db.get(NS, b"k".to_vec()).unwrap(), None);
}

#[test]
fn failed_durable_remove_keeps_old_value_visible() {
    let mut storage = Storage::new(MemEngine::default(), MemEngine::default(), NS);
    storage.put(b"k".to_vec(), b"v".to_vec()).unwrap();
    storage.db.fail_removes = true;
    assert_eq!(storage.remove(b"k".to_vec()), Err(StoreError::Backend));
    // No partial visibility: the old value is still observed.
    assert_eq!(storage.get(b"k").unwrap(), Some(b"v".to_vec()));
    assert_eq!(
        storage.db.get(NS, b"k".to_vec()).unwrap(),
        Some(b"v".to_vec())
    );
}

#[test]
fn successful_remove_clears_both_tiers() {
    let mut storage = Storage::new(MemEngine::default(), MemEngine::default(), NS);
    storage.put(b"k".to_vec(), b"v".to_vec()).unwrap();
    storage.remove(b"k".to_vec()).unwrap();
    assert_eq!(storage.get(b"k").unwrap(), None);
    assert_eq!(storage.db.get(NS, b"k".to_vec()).unwrap(), None);
}

#[test]
fn cache_confirmed_absence_is_final_even_when_durable_tier_has_data() {
    // The documented sharp edge: a stale-empty cache masks durable content.
    let mut db = MemEngine::default();
    db.put(NS, b"k".to_vec(), b"v".to_vec()).unwrap();
    let storage = Storage::new(MemEngine::default(), db, NS);
    assert_eq!(storage.get(b"k").unwrap(), None);
}

#[test]
fn cache_read_failure_falls_through_to_durable_tier() {
    let mut db = MemEngine::default();
    db.put(NS, b"k".to_vec(), b"v".to_vec()).unwrap();
    let mut cache = MemEngine::default();
    cache.fail_gets = true;
    let storage = Storage::new(cache, db, NS);
    assert_eq!(storage.get(b"k").unwrap(), Some(b"v".to_vec()));
}

#[test]
fn contains_key_is_answered_from_the_cache_alone() {
    let mut db = MemEngine::default();
    db.put(NS, b"k".to_vec(), b"v".to_vec()).unwrap();
    let storage = Storage::new(MemEngine::default(), db, NS);
    assert!(!storage.contains_key(b"k".to_vec()).unwrap());
    let mut storage = storage;
    storage.put(b"j".to_vec(), b"w".to_vec()).unwrap();
    assert!(storage.contains_key(b"j".to_vec()).unwrap());
}

#[test]
fn len_and_keys_reflect_the_cache_engine() {
    let mut storage = Storage::new(MemEngine::default(), MemEngine::default(), NS);
    storage.put(b"a".to_vec(), b"1".to_vec()).unwrap();
    storage.put(b"b".to_vec(), b"2".to_vec()).unwrap();
    assert_eq!(storage.get_len().unwrap(), 2);
    let mut keys = storage.keys().unwrap();
    keys.sort();
    assert_eq!(keys, vec![b"a".to_vec(), b"b".to_vec()]);
}

#[test]
fn delegated_storage_reads_and_writes_one_namespace() {
    let mut s = StorageDelegated::new(MemEngine::default(), NS);
    s.put(b"k".to_vec(), b"v".to_vec()).unwrap();
    assert_eq!(s.get(b"k").unwrap(), Some(b"v".to_vec()));
    assert!(s.contains_key(b"k".to_vec()).unwrap());
    s.remove(b"k".to_vec()).unwrap();
    assert_eq!(s.get(b"k").unwrap(), None);
}

#[test]
fn codec_storage_round_trips_typed_entries() {
    let repo = Storage::new(MemEngine::default(), MemEngine::default(), NS);
    let mut store: CodecStorage<HashValue, HashValue, _> = CodecStorage::new(repo);
    let k = HashValue::from_slice(&[1; 32]).unwrap();
    let v = HashValue::from_slice(&[2; 32]).unwrap();
    store.put(k, v).unwrap();
    assert_eq!(store.get(k).unwrap(), Some(v));
    assert!(store.contains_key(k).unwrap());
    assert_eq!(store.get_len().unwrap(), 1);
    store.remove(k).unwrap();
    assert_eq!(store.get(k).unwrap(), None);
}

#[test]
fn codec_storage_surfaces_decode_failure_as_corruption() {
    let mut repo = Storage::new(MemEngine::default(), MemEngine::default(), NS);
    let k = HashValue::from_slice(&[1; 32]).unwrap();
    // A value that is not a valid 32-byte hash: corruption, never ignored.
    repo.put(k.to_vec(), vec![0xde, 0xad]).unwrap();
    let store: CodecStorage<HashValue, HashValue, _> = CodecStorage::new(repo);
    assert_eq!(store.get(k), Err(StoreError::Corruption));
}
