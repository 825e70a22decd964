use std::collections::HashMap;

use ledger_sync::accumulator::{AccumulatorNode, AccumulatorStore, NodeIndex};
use ledger_sync::errors::StoreError;
use ledger_sync::hash::HashValue;
use ledger_sync::storage::{InnerRepository, StorageDelegated};

/// Plain in-memory engine with switchable fault injection.
#[derive(Default)]
struct MemEngine {
    entries: HashMap<(String, Vec<u8>), Vec<u8>>,
    fail_removes: bool,
}

impl InnerRepository for MemEngine {
    // Ghost projection: never called at runtime.
    fn contents(
        &self,
    ) -> vstd::map::Map<(vstd::seq::Seq<char>, vstd::seq::Seq<u8>), vstd::seq::Seq<u8>> {
        unreachable!()
    }

    fn get(&self, prefix_name: &str, key: Vec<u8>) -> Result<Option<Vec<u8>>, StoreError> {
        Ok(self.entries.get(&(prefix_name.to_string(), key)).cloned())
    }

    fn put(&mut self, prefix_name: &str, key: Vec<u8>, value: Vec<u8>) -> Result<(), StoreError> {
        self.entries.insert((prefix_name.to_string(), key), value);
        Ok(())
    }

    fn contains_key(&self, prefix_name: &str, key: Vec<u8>) -> Result<bool, StoreError> {
        Ok(self.entries.contains_key(&(prefix_name.to_string(), key)))
    }

    fn remove(&mut self, prefix_name: &str, key: Vec<u8>) -> Result<(), StoreError> {
        if self.fail_removes {
            return Err(StoreError::Backend);
        }
        self.entries.remove(&(prefix_name.to_string(), key));
        Ok(())
    }

    fn get_len(&self) -> Result<u64, StoreError> {
        Ok(self.entries.len() as u64)
    }

    fn keys(&self) -> Result<Vec<Vec<u8>>, StoreError> {
        Ok(self.entries.keys().map(|(_, k)| k.clone()).collect())
    }
}

type TestStore = AccumulatorStore<StorageDelegated<MemEngine>>;

fn fresh_store() -> TestStore {
    AccumulatorStore::new(
        StorageDelegated::new(MemEngine::default(), "accumulator_index"),
        StorageDelegated::new(MemEngine::default(), "accumulator_node"),
    )
}

fn hash(b: u8) -> HashValue {
    HashValue::from_slice(&[b; 32]).unwrap()
}

#[test]
fn dangling_index_is_corruption_not_absence() {
    let store = fresh_store();
    // No mapping for this position: the lookup must fail, never say "absent".
    assert!(matches!(
        store.get(NodeIndex::new(5)),
        Err(StoreError::Corruption)
    ));
}

#[test]
fn resolved_index_with_missing_node_is_a_legitimate_absence() {
    let mut store = fresh_store();
    store.save(NodeIndex::new(1), hash(9)).unwrap();
    // Position resolves to a hash, but the body was pruned: absence is fine.
    assert!(matches!(store.get(NodeIndex::new(1)), Ok(None)));
}

#[test]
fn saved_node_resolves_through_its_index() {
    let mut store = fresh_store();
    let node = AccumulatorNode::new(hash(7), vec![1, 2, 3]);
    store.save(NodeIndex::new(4), node.hash()).unwrap();
    store.save_node(AccumulatorNode::new(hash(7), vec![1, 2, 3])).unwrap();
    let got = store.get(NodeIndex::new(4)).unwrap().unwrap();
    assert_eq!(got.hash(), node.hash());
    assert_eq!(got.body, vec![1, 2, 3]);
    let direct = store.get_node(hash(7)).unwrap().unwrap();
    assert_eq!(direct.body, vec![1, 2, 3]);
}

#[test]
fn get_node_miss_is_ok_none() {
    let store = fresh_store();
    assert!(matches!(store.get_node(hash(1)), Ok(None)));
}

#[test]
fn delete_nodes_index_rejects_empty_input_and_deletes_nothing() {
    let mut store = fresh_store();
    store.save(NodeIndex::new(1), hash(1)).unwrap();
    assert_eq!(
        store.delete_nodes_index(Vec::new()),
        Err(StoreError::Precondition)
    );
    // The existing mapping is untouched.
    assert!(matches!(store.get(NodeIndex::new(1)), Ok(None)));
}

#[test]
fn delete_nodes_index_removes_each_listed_position() {
    let mut store = fresh_store();
    store.save(NodeIndex::new(1), hash(1)).unwrap();
    store.save(NodeIndex::new(2), hash(2)).unwrap();
    store
        .delete_nodes_index(vec![NodeIndex::new(1), NodeIndex::new(2)])
        .unwrap();
    assert!(matches!(
        store.get(NodeIndex::new(1)),
        Err(StoreError::Corruption)
    ));
    assert!(matches!(
        store.get(NodeIndex::new(2)),
        Err(StoreError::Corruption)
    ));
}

#[test]
fn delete_nodes_removes_bodies_and_stops_at_first_error() {
    let mut store = fresh_store();
    store.save_node(AccumulatorNode::new(hash(1), vec![1])).unwrap();
    store.save_node(AccumulatorNode::new(hash(2), vec![2])).unwrap();
    store.delete_nodes(vec![hash(1)]).unwrap();
    assert!(matches!(store.get_node(hash(1)), Ok(None)));
    assert!(matches!(store.get_node(hash(2)), Ok(Some(_))));

    store.node_store.store.repository.fail_removes = true;
    assert_eq!(store.delete_nodes(vec![hash(2)]), Err(StoreError::Backend));
    store.node_store.store.repository.fail_removes = false;
    assert!(matches!(store.get_node(hash(2)), Ok(Some(_))));
}

#[test]
fn two_new_binds_the_two_canonical_namespaces() {
    let mut store = AccumulatorStore::two_new(
        MemEngine::default(),
        MemEngine::default(),
        MemEngine::default(),
        MemEngine::default(),
    );
    store.save(NodeIndex::new(0), hash(3)).unwrap();
    store.save_node(AccumulatorNode::new(hash(3), vec![7])).unwrap();
    let got = store.get(NodeIndex::new(0)).unwrap().unwrap();
    assert_eq!(got.body, vec![7]);
    assert_eq!(store.index_storage.store.prefix_name, "accumulator_index");
    assert_eq!(store.node_store.store.prefix_name, "accumulator_node");
}
