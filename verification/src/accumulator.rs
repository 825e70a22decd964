//! The Merkle-accumulator node store: one namespace maps a node's in-order
//! position to the node's hash, a second maps the hash to the node body.
//! A position that exists in the live tree must always resolve, so a missing
//! position mapping is corruption, never a legitimate absence; a missing
//! node body is legitimate (the node may have been pruned).

use vstd::prelude::*;

use crate::codec::{encode_u64_be, read_u64_be, u64_be_bytes};
use crate::codec::{lemma_u64_be_bytes_of_read, lemma_u64_be_injective};
use crate::codec::{KeyCodec, ValueCodec};
use crate::errors::StoreError;
use crate::hash::{lemma_hash_bytes_injective, HashValue};
use crate::storage::{maps_to, CodecStorage, InnerRepository, Repository, Storage};

verus! {

/// Namespace of the position → hash mapping.
pub const ACCUMULATOR_INDEX_KEY_PREFIX: &'static str = "accumulator_index";

/// Namespace of the hash → node-body mapping.
pub const ACCUMULATOR_NODE_KEY_PREFIX: &'static str = "accumulator_node";

/// A node's position in the accumulator's in-order traversal.
#[derive(Clone, Copy, Debug, PartialEq, Eq, Structural)]
pub struct NodeIndex {
    pub index: u64,
}

impl NodeIndex {
    /// Wraps an in-order position ordinal.
    pub fn new(index: u64) -> (r: Self)
        ensures
            r.index == index,
    {
        NodeIndex { index }
    }

    /// The position ordinal.
    pub fn to_inorder_index(&self) -> (r: u64)
        ensures
            r == self.index,
    {
        self.index
    }
}

impl View for NodeIndex {
    type V = NodeIndex;

    open spec fn view(&self) -> NodeIndex {
        *self
    }
}

impl KeyCodec for NodeIndex {
    open spec fn valid_key(&self) -> bool {
        true
    }

    open spec fn key_bytes(&self) -> Seq<u8> {
        u64_be_bytes(self.index)
    }

    fn encode_key(&self) -> (r: Result<Vec<u8>, StoreError>) {
        Ok(encode_u64_be(self.index))
    }

    fn decode_key(data: &[u8]) -> (r: Result<Self, StoreError>) {
        if data.len() == 8 {
            let x = read_u64_be(data, 0);
            proof {
                assert(data@.subrange(0, 8) =~= data@);
                lemma_u64_be_bytes_of_read(data@);
            }
            Ok(NodeIndex { index: x })
        } else {
            proof {
                if exists|k: NodeIndex| k.valid_key() && k.key_bytes() == data@ {
                    let k = choose|k: NodeIndex| k.valid_key() && k.key_bytes() == data@;
                    assert(k.key_bytes().len() == 8);
                }
            }
            Err(StoreError::Corruption)
        }
    }

    proof fn key_bytes_injective(a: Self, b: Self) {
        lemma_u64_be_injective(a.index, b.index);
    }
}

/// A position key is always exactly eight bytes. With the codec contract
/// this pins the decoder's domain: a buffer of any other length can never
/// be the encoding of a position, so decoding it must fail, and decoding a
/// valid eight-byte buffer recovers exactly the original ordinal.
pub proof fn lemma_node_index_key_len(k: NodeIndex)
    ensures
        k.key_bytes().len() == 8,
{
}

/// The mathematical content of an accumulator node: its hash and the bytes
/// of its body.
pub struct AccumulatorNodeData {
    pub hash: HashValue,
    pub body: Seq<u8>,
}

/// A content-addressed Merkle node: its storage key is its own hash, so
/// structurally identical subtrees deduplicate automatically. The body is
/// the serialized node produced by the accumulator collaborator; this store
/// never interprets it.
pub struct AccumulatorNode {
    pub hash: HashValue,
    pub body: Vec<u8>,
}

impl AccumulatorNode {
    /// Builds a node from its hash and serialized body.
    pub fn new(hash: HashValue, body: Vec<u8>) -> (r: Self)
        ensures
            r.hash == hash,
            r.body == body,
    {
        AccumulatorNode { hash, body }
    }

    /// The node's own hash, which is also its storage key.
    pub fn hash(&self) -> (r: HashValue)
        ensures
            r == self.hash,
    {
        self.hash
    }
}

impl View for AccumulatorNode {
    type V = AccumulatorNodeData;

    open spec fn view(&self) -> AccumulatorNodeData {
        AccumulatorNodeData { hash: self.hash, body: self.body@ }
    }
}

impl ValueCodec for AccumulatorNode {
    open spec fn valid_value(&self) -> bool {
        true
    }

    open spec fn value_bytes(&self) -> Seq<u8> {
        self.hash.bytes() + self.body@
    }

    fn encode_value(&self) -> (r: Result<Vec<u8>, StoreError>) {
        let mut out = self.hash.to_vec();
        let mut i: usize = 0;
        while i < self.body.len()
            invariant
                i <= self.body@.len(),
                out@ == self.hash.bytes() + self.body@.subrange(0, i as int),
            decreases self.body@.len() - i,
        {
            out.push(self.body[i]);
            i = i + 1;
            proof {
                assert(out@ =~= self.hash.bytes() + self.body@.subrange(0, i as int));
            }
        }
        proof {
            assert(out@ =~= self.value_bytes());
        }
        Ok(out)
    }

    fn decode_value(data: &[u8]) -> (r: Result<Self, StoreError>) {
        if data.len() < 32 {
            proof {
                if exists|v: AccumulatorNode| v.valid_value() && v.value_bytes() == data@ {
                    let v = choose|v: AccumulatorNode| v.valid_value() && v.value_bytes() == data@;
                    assert(v.value_bytes().len() >= 32);
                }
            }
            return Err(StoreError::Corruption);
        }
        let hash = HashValue {
            w0: read_u64_be(data, 0),
            w1: read_u64_be(data, 8),
            w2: read_u64_be(data, 16),
            w3: read_u64_be(data, 24),
        };
        let mut body: Vec<u8> = Vec::new();
        let mut i: usize = 32;
        while i < data.len()
            invariant
                32 <= i <= data@.len(),
                body@ == data@.subrange(32, i as int),
            decreases data@.len() - i,
        {
            body.push(data[i]);
            i = i + 1;
            proof {
                assert(body@ =~= data@.subrange(32, i as int));
            }
        }
        let node = AccumulatorNode { hash, body };
        proof {
            lemma_u64_be_bytes_of_read(data@.subrange(0, 8));
            lemma_u64_be_bytes_of_read(data@.subrange(8, 16));
            lemma_u64_be_bytes_of_read(data@.subrange(16, 24));
            lemma_u64_be_bytes_of_read(data@.subrange(24, 32));
            assert(node.value_bytes() =~= data@);
        }
        Ok(node)
    }

    proof fn value_bytes_injective(a: Self, b: Self) {
        assert(a.hash.bytes().len() == 32);
        assert(b.hash.bytes().len() == 32);
        assert(a.hash.bytes() =~= b.value_bytes().subrange(0, 32));
        assert(b.hash.bytes() =~= b.value_bytes().subrange(0, 32));
        lemma_hash_bytes_injective(a.hash, b.hash);
        assert(a.body@ =~= b.value_bytes().subrange(32, b.value_bytes().len() as int));
        assert(b.body@ =~= b.value_bytes().subrange(32, b.value_bytes().len() as int));
    }
}

/// The byte keys under which the listed hashes are stored.
pub open spec fn hash_key_set(hs: Seq<HashValue>) -> Set<Seq<u8>> {
    Set::new(|kb: Seq<u8>| exists|i: int| 0 <= i < hs.len() && (#[trigger] hs[i]).bytes() == kb)
}

/// The byte keys under which the listed positions are stored.
pub open spec fn index_key_set(is: Seq<NodeIndex>) -> Set<Seq<u8>> {
    Set::new(
        |kb: Seq<u8>| exists|i: int| 0 <= i < is.len() && (#[trigger] is[i]).key_bytes() == kb,
    )
}

/// `m1` agrees with `m0` on every key outside `s`.
pub open spec fn agrees_off(
    m0: Map<Seq<u8>, Seq<u8>>,
    m1: Map<Seq<u8>, Seq<u8>>,
    s: Set<Seq<u8>>,
) -> bool {
    forall|kb: Seq<u8>|
        !s.contains(kb) ==> (#[trigger] m1.contains_key(kb) == m0.contains_key(kb)
            && (m0.contains_key(kb) ==> m1[kb] == m0[kb]))
}

/// The accumulator's persistence: position pointers in one typed store,
/// content-addressed node bodies in another.
pub struct AccumulatorStore<R: Repository> {
    pub index_storage: CodecStorage<NodeIndex, HashValue, R>,
    pub node_store: CodecStorage<HashValue, AccumulatorNode, R>,
}

impl<R: Repository> AccumulatorStore<R> {
    /// Read tier of the position → hash namespace.
    pub open spec fn index_cached(&self) -> Map<Seq<u8>, Seq<u8>> {
        self.index_storage.cached()
    }

    /// Authoritative tier of the position → hash namespace.
    pub open spec fn index_durable(&self) -> Map<Seq<u8>, Seq<u8>> {
        self.index_storage.durable()
    }

    /// Read tier of the hash → node namespace.
    pub open spec fn node_cached(&self) -> Map<Seq<u8>, Seq<u8>> {
        self.node_store.cached()
    }

    /// Authoritative tier of the hash → node namespace.
    pub open spec fn node_durable(&self) -> Map<Seq<u8>, Seq<u8>> {
        self.node_store.durable()
    }

    /// Builds the store over one repository per namespace.
    pub fn new(index_repository: R, node_repository: R) -> (r: Self)
        ensures
            r.index_storage.store == index_repository,
            r.node_store.store == node_repository,
    {
        Self {
            index_storage: CodecStorage::new(index_repository),
            node_store: CodecStorage::new(node_repository),
        }
    }

    /// Resolves a position to its node. A position with no hash mapping is
    /// corruption: the call fails rather than reporting absence. A resolved
    /// hash whose body is missing is a legitimate absence.
    pub fn get(&self, index: NodeIndex) -> (r: Result<Option<AccumulatorNode>, StoreError>)
        ensures
            r matches Ok(Some(node)) ==> exists|h: HashValue|
                (maps_to(self.index_cached(), index.key_bytes(), (#[trigger] h.bytes())) || maps_to(
                    self.index_durable(),
                    index.key_bytes(),
                    h.bytes(),
                )) && (maps_to(self.node_cached(), h.bytes(), node.value_bytes()) || maps_to(
                    self.node_durable(),
                    h.bytes(),
                    node.value_bytes(),
                )),
            r matches Ok(None) ==> exists|h: HashValue|
                (maps_to(self.index_cached(), index.key_bytes(), (#[trigger] h.bytes())) || maps_to(
                    self.index_durable(),
                    index.key_bytes(),
                    h.bytes(),
                )) && (!self.node_cached().contains_key(h.bytes()) || !self.node_durable(
                ).contains_key(h.bytes())),
            !self.index_cached().contains_key(index.key_bytes()) && !self.index_durable(
            ).contains_key(index.key_bytes()) ==> r is Err,
    {
        match self.index_storage.get(index) {
            Ok(Some(hash)) => {
                let r = self.node_store.get(hash);
                proof {
                    if r is Ok {
                        let o = r->Ok_0;
                        if o is Some {
                            let node = o.unwrap();
                            {
                                assert((maps_to(
                                    self.index_cached(),
                                    index.key_bytes(),
                                    hash.bytes(),
                                ) || maps_to(self.index_durable(), index.key_bytes(), hash.bytes()))
                                    && (maps_to(self.node_cached(), hash.bytes(), node.value_bytes())
                                    || maps_to(
                                    self.node_durable(),
                                    hash.bytes(),
                                    node.value_bytes(),
                                )));
                            }
                        } else {
                            {
                                assert((maps_to(
                                    self.index_cached(),
                                    index.key_bytes(),
                                    hash.bytes(),
                                ) || maps_to(self.index_durable(), index.key_bytes(), hash.bytes()))
                                    && (!self.node_cached().contains_key(hash.bytes())
                                    || !self.node_durable().contains_key(hash.bytes())));
                            }
                        }
                    }
                }
                r
            },
            Ok(None) => Err(StoreError::Corruption),
            Err(e) => Err(e),
        }
    }

    /// Looks a node up by its hash. Absence is a normal outcome.
    pub fn get_node(&self, hash: HashValue) -> (r: Result<Option<AccumulatorNode>, StoreError>)
        ensures
            r matches Ok(Some(node)) ==> maps_to(self.node_cached(), hash.bytes(), node.value_bytes())
                || maps_to(self.node_durable(), hash.bytes(), node.value_bytes()),
            r matches Ok(None) ==> !self.node_cached().contains_key(hash.bytes())
                || !self.node_durable().contains_key(hash.bytes()),
    {
        self.node_store.get(hash)
    }

    /// Idempotent upsert of the position pointer.
    pub fn save(&mut self, index: NodeIndex, hash: HashValue) -> (r: Result<(), StoreError>)
        ensures
            r is Ok ==> final(self).index_durable() == old(self).index_durable().insert(
                index.key_bytes(),
                hash.bytes(),
            ) && final(self).index_cached() == old(self).index_cached().insert(
                index.key_bytes(),
                hash.bytes(),
            ),
            r is Err ==> final(self).index_cached() == old(self).index_cached() && (final(self).index_durable() == old(self).index_durable() || final(self).index_durable() == old(self).index_durable().insert(index.key_bytes(), hash.bytes())),
            final(self).node_store == old(self).node_store,
    {
        self.index_storage.put(index, hash)
    }

    /// Upsert of a node body, keyed by the node's own hash.
    pub fn save_node(&mut self, node: AccumulatorNode) -> (r: Result<(), StoreError>)
        ensures
            r is Ok ==> final(self).node_durable() == old(self).node_durable().insert(
                node.hash.bytes(),
                node.value_bytes(),
            ) && final(self).node_cached() == old(self).node_cached().insert(
                node.hash.bytes(),
                node.value_bytes(),
            ),
            r is Err ==> final(self).node_cached() == old(self).node_cached() && (final(self).node_durable() == old(self).node_durable() || final(self).node_durable() == old(self).node_durable().insert(node.hash.bytes(), node.value_bytes())),
            final(self).index_storage == old(self).index_storage,
    {
        let key = node.hash();
        self.node_store.put(key, node)
    }

    /// Bulk delete of node bodies: removes each listed hash in order and
    /// stops at the first failing delete, propagating its error — some
    /// prefix of the list is then removed and the rest untouched. Keys not
    /// listed are never touched.
    pub fn delete_nodes(&mut self, node_hash_vec: Vec<HashValue>) -> (r: Result<(), StoreError>)
        ensures
            r is Ok ==> final(self).node_durable() == old(self).node_durable().remove_keys(
                hash_key_set(node_hash_vec@),
            ) && final(self).node_cached() == old(self).node_cached().remove_keys(
                hash_key_set(node_hash_vec@),
            ),
            agrees_off(old(self).node_durable(), final(self).node_durable(), hash_key_set(node_hash_vec@)),
            agrees_off(old(self).node_cached(), final(self).node_cached(), hash_key_set(node_hash_vec@)),
            r is Err ==> exists|i: int|
                #![trigger node_hash_vec@.subrange(0, i)]
                0 <= i < node_hash_vec@.len() && final(self).node_cached() == old(self).node_cached().remove_keys(hash_key_set(node_hash_vec@.subrange(0, i)))
                    && (final(self).node_durable() == old(self).node_durable().remove_keys(hash_key_set(node_hash_vec@.subrange(0, i)))
                        || final(self).node_durable() == old(self).node_durable().remove_keys(hash_key_set(node_hash_vec@.subrange(0, i + 1)))),
            final(self).index_storage == old(self).index_storage,
    {
        let mut i: usize = 0;
        while i < node_hash_vec.len()
            invariant
                i <= node_hash_vec@.len(),
                self.node_durable() == old(self).node_durable().remove_keys(
                    hash_key_set(node_hash_vec@.subrange(0, i as int)),
                ),
                self.node_cached() == old(self).node_cached().remove_keys(
                    hash_key_set(node_hash_vec@.subrange(0, i as int)),
                ),
                self.index_storage == old(self).index_storage,
            decreases node_hash_vec@.len() - i,
        {
            let ghost pre_durable = self.node_durable();
            let ghost pre_cached = self.node_cached();
            let h = node_hash_vec[i];
            let r = self.node_store.remove(h);
            match r {
                Ok(_) => {
                    proof {
                        lemma_key_set_step(node_hash_vec@, i as int);
                        assert(pre_durable.remove(h.bytes()) =~= old(self).node_durable().remove_keys(
                            hash_key_set(node_hash_vec@.subrange(0, i as int + 1)),
                        ));
                        assert(pre_cached.remove(h.bytes()) =~= old(self).node_cached().remove_keys(
                            hash_key_set(node_hash_vec@.subrange(0, i as int + 1)),
                        ));
                    }
                    i = i + 1;
                },
                Err(e) => {
                    proof {
                        lemma_agrees_from_prefix(
                            old(self).node_durable(),
                            self.node_durable(),
                            node_hash_vec@,
                            i as int,
                            h.bytes(),
                        );
                        lemma_agrees_from_prefix(
                            old(self).node_cached(),
                            self.node_cached(),
                            node_hash_vec@,
                            i as int,
                            h.bytes(),
                        );
                        lemma_key_set_step(node_hash_vec@, i as int);
                        assert(pre_durable.remove(h.bytes()) =~= old(self).node_durable().remove_keys(
                            hash_key_set(node_hash_vec@.subrange(0, i as int + 1)),
                        ));
                        assert(self.node_cached() == old(self).node_cached().remove_keys(
                            hash_key_set(node_hash_vec@.subrange(0, i as int)),
                        ));
                    }
                    return Err(e);
                },
            }
        }
        proof {
            assert(node_hash_vec@.subrange(0, node_hash_vec@.len() as int) =~= node_hash_vec@);
            lemma_agrees_from_prefix_ok(
                old(self).node_durable(),
                self.node_durable(),
                node_hash_vec@,
            );
            lemma_agrees_from_prefix_ok(
                old(self).node_cached(),
                self.node_cached(),
                node_hash_vec@,
            );
        }
        Ok(())
    }

    /// Bulk delete of position pointers. An empty request is a caller bug:
    /// the call fails fast with a precondition error and deletes nothing.
    /// Otherwise each listed position is removed in order, stopping at the
    /// first failing delete: some prefix of the list is then removed and
    /// the rest untouched.
    pub fn delete_nodes_index(&mut self, vec_index: Vec<NodeIndex>) -> (r: Result<(), StoreError>)
        ensures
            vec_index@.len() == 0 ==> r == Err::<(), StoreError>(StoreError::Precondition) && *final(self) == *old(self),
            r is Ok ==> vec_index@.len() > 0 && final(self).index_durable() == old(self).index_durable().remove_keys(index_key_set(vec_index@)) && final(self).index_cached()
                == old(self).index_cached().remove_keys(index_key_set(vec_index@)),
            agrees_off(old(self).index_durable(), final(self).index_durable(), index_key_set(vec_index@)),
            agrees_off(old(self).index_cached(), final(self).index_cached(), index_key_set(vec_index@)),
            vec_index@.len() > 0 ==> (r is Err ==> exists|i: int|
                #![trigger vec_index@.subrange(0, i)]
                0 <= i < vec_index@.len() && final(self).index_cached() == old(self).index_cached().remove_keys(index_key_set(vec_index@.subrange(0, i)))
                    && (final(self).index_durable() == old(self).index_durable().remove_keys(index_key_set(vec_index@.subrange(0, i)))
                        || final(self).index_durable() == old(self).index_durable().remove_keys(index_key_set(vec_index@.subrange(0, i + 1))))),
            final(self).node_store == old(self).node_store,
    {
        if vec_index.len() == 0 {
            return Err(StoreError::Precondition);
        }
        let mut i: usize = 0;
        while i < vec_index.len()
            invariant
                i <= vec_index@.len(),
                self.index_durable() == old(self).index_durable().remove_keys(
                    index_key_set(vec_index@.subrange(0, i as int)),
                ),
                self.index_cached() == old(self).index_cached().remove_keys(
                    index_key_set(vec_index@.subrange(0, i as int)),
                ),
                self.node_store == old(self).node_store,
                vec_index@.len() > 0,
            decreases vec_index@.len() - i,
        {
            let ghost pre_durable = self.index_durable();
            let ghost pre_cached = self.index_cached();
            let idx = vec_index[i];
            let r = self.index_storage.remove(idx);
            match r {
                Ok(_) => {
                    proof {
                        lemma_index_key_set_step(vec_index@, i as int);
                        assert(pre_durable.remove(idx.key_bytes()) =~= old(self).index_durable().remove_keys(
                            index_key_set(vec_index@.subrange(0, i as int + 1)),
                        ));
                        assert(pre_cached.remove(idx.key_bytes()) =~= old(self).index_cached().remove_keys(
                            index_key_set(vec_index@.subrange(0, i as int + 1)),
                        ));
                    }
                    i = i + 1;
                },
                Err(e) => {
                    proof {
                        lemma_index_agrees_from_prefix(
                            old(self).index_durable(),
                            self.index_durable(),
                            vec_index@,
                            i as int,
                            idx.key_bytes(),
                        );
                        lemma_index_agrees_from_prefix(
                            old(self).index_cached(),
                            self.index_cached(),
                            vec_index@,
                            i as int,
                            idx.key_bytes(),
                        );
                        lemma_index_key_set_step(vec_index@, i as int);
                        assert(pre_durable.remove(idx.key_bytes()) =~= old(self).index_durable().remove_keys(
                            index_key_set(vec_index@.subrange(0, i as int + 1)),
                        ));
                        assert(self.index_cached() == old(self).index_cached().remove_keys(
                            index_key_set(vec_index@.subrange(0, i as int)),
                        ));
                    }
                    return Err(e);
                },
            }
        }
        proof {
            assert(vec_index@.subrange(0, vec_index@.len() as int) =~= vec_index@);
            lemma_index_agrees_from_prefix_ok(
                old(self).index_durable(),
                self.index_durable(),
                vec_index@,
            );
            lemma_index_agrees_from_prefix_ok(
                old(self).index_cached(),
                self.index_cached(),
                vec_index@,
            );
        }
        Ok(())
    }
}

impl<C: InnerRepository, D: InnerRepository> AccumulatorStore<Storage<C, D>> {
    /// Builds the store over a cache engine and a durable engine per
    /// namespace, bound to the two canonical accumulator namespaces.
    pub fn two_new(index_cache: C, index_db: D, node_cache: C, node_db: D) -> (r: Self)
        ensures
            r.index_storage.store.cache == index_cache,
            r.index_storage.store.db == index_db,
            r.index_storage.store.prefix_name@ == ACCUMULATOR_INDEX_KEY_PREFIX@,
            r.node_store.store.cache == node_cache,
            r.node_store.store.db == node_db,
            r.node_store.store.prefix_name@ == ACCUMULATOR_NODE_KEY_PREFIX@,
    {
        Self {
            index_storage: CodecStorage::new(
                Storage::new(index_cache, index_db, ACCUMULATOR_INDEX_KEY_PREFIX),
            ),
            node_store: CodecStorage::new(
                Storage::new(node_cache, node_db, ACCUMULATOR_NODE_KEY_PREFIX),
            ),
        }
    }
}

/// Extending a hash prefix by one element adds exactly that element's key.
proof fn lemma_key_set_step(hs: Seq<HashValue>, i: int)
    requires
        0 <= i < hs.len(),
    ensures
        hash_key_set(hs.subrange(0, i + 1)) =~= hash_key_set(hs.subrange(0, i)).insert(
            hs[i].bytes(),
        ),
{
    let sub1 = hs.subrange(0, i + 1);
    let sub0 = hs.subrange(0, i);
    assert forall|kb: Seq<u8>| hash_key_set(sub1).contains(kb) implies hash_key_set(sub0).insert(
        hs[i].bytes(),
    ).contains(kb) by {
        let j = choose|j: int| 0 <= j < sub1.len() && (#[trigger] sub1[j]).bytes() == kb;
        if j < i {
            assert(sub0[j] == sub1[j]);
        } else {
            assert(sub1[j] == hs[i]);
        }
    }
    assert forall|kb: Seq<u8>|
        hash_key_set(sub0).insert(hs[i].bytes()).contains(kb) implies hash_key_set(sub1).contains(
        kb,
    ) by {
        if kb == hs[i].bytes() {
            assert(sub1[i] == hs[i]);
            assert((sub1[i]).bytes() == kb);
        } else {
            let j = choose|j: int| 0 <= j < sub0.len() && (#[trigger] sub0[j]).bytes() == kb;
            assert(sub1[j] == sub0[j]);
        }
    }
}

/// Same step fact for position keys.
proof fn lemma_index_key_set_step(is: Seq<NodeIndex>, i: int)
    requires
        0 <= i < is.len(),
    ensures
        index_key_set(is.subrange(0, i + 1)) =~= index_key_set(is.subrange(0, i)).insert(
            is[i].key_bytes(),
        ),
{
    let sub1 = is.subrange(0, i + 1);
    let sub0 = is.subrange(0, i);
    assert forall|kb: Seq<u8>| index_key_set(sub1).contains(kb) implies index_key_set(sub0).insert(
        is[i].key_bytes(),
    ).contains(kb) by {
        let j = choose|j: int| 0 <= j < sub1.len() && (#[trigger] sub1[j]).key_bytes() == kb;
        if j < i {
            assert(sub0[j] == sub1[j]);
        } else {
            assert(sub1[j] == is[i]);
        }
    }
    assert forall|kb: Seq<u8>|
        index_key_set(sub0).insert(is[i].key_bytes()).contains(kb) implies index_key_set(
        sub1,
    ).contains(kb) by {
        if kb == is[i].key_bytes() {
            assert(sub1[i] == is[i]);
            assert((sub1[i]).key_bytes() == kb);
        } else {
            let j = choose|j: int| 0 <= j < sub0.len() && (#[trigger] sub0[j]).key_bytes() == kb;
            assert(sub1[j] == sub0[j]);
        }
    }
}

/// A map that equals the original with a prefix of the listed keys removed
/// — possibly with one more listed key removed — agrees with the original
/// off the full key set.
proof fn lemma_agrees_from_prefix(
    m0: Map<Seq<u8>, Seq<u8>>,
    m1: Map<Seq<u8>, Seq<u8>>,
    hs: Seq<HashValue>,
    i: int,
    extra: Seq<u8>,
)
    requires
        0 <= i < hs.len(),
        extra == hs[i].bytes(),
        m1 == m0.remove_keys(hash_key_set(hs.subrange(0, i))) || m1 == m0.remove_keys(
            hash_key_set(hs.subrange(0, i)),
        ).remove(extra),
    ensures
        agrees_off(m0, m1, hash_key_set(hs)),
{
    assert forall|kb: Seq<u8>| !hash_key_set(hs).contains(kb) implies (#[trigger] m1.contains_key(
        kb,
    ) == m0.contains_key(kb) && (m0.contains_key(kb) ==> m1[kb] == m0[kb])) by {
        assert(!hash_key_set(hs.subrange(0, i)).contains(kb)) by {
            if hash_key_set(hs.subrange(0, i)).contains(kb) {
                let j = choose|j: int|
                    0 <= j < i && (#[trigger] hs.subrange(0, i)[j]).bytes() == kb;
                assert(hs[j] == hs.subrange(0, i)[j]);
                assert(hash_key_set(hs).contains(kb));
            }
        }
        assert(kb != extra) by {
            if kb == extra {
                assert((hs[i]).bytes() == kb);
                assert(hash_key_set(hs).contains(kb));
            }
        }
    }
}

/// A map with exactly the listed keys removed agrees with the original off
/// that key set.
proof fn lemma_agrees_from_prefix_ok(
    m0: Map<Seq<u8>, Seq<u8>>,
    m1: Map<Seq<u8>, Seq<u8>>,
    hs: Seq<HashValue>,
)
    requires
        m1 == m0.remove_keys(hash_key_set(hs)),
    ensures
        agrees_off(m0, m1, hash_key_set(hs)),
{
}

/// Position-key variant of `lemma_agrees_from_prefix`.
proof fn lemma_index_agrees_from_prefix(
    m0: Map<Seq<u8>, Seq<u8>>,
    m1: Map<Seq<u8>, Seq<u8>>,
    is: Seq<NodeIndex>,
    i: int,
    extra: Seq<u8>,
)
    requires
        0 <= i < is.len(),
        extra == is[i].key_bytes(),
        m1 == m0.remove_keys(index_key_set(is.subrange(0, i))) || m1 == m0.remove_keys(
            index_key_set(is.subrange(0, i)),
        ).remove(extra),
    ensures
        agrees_off(m0, m1, index_key_set(is)),
{
    assert forall|kb: Seq<u8>| !index_key_set(is).contains(kb) implies (#[trigger] m1.contains_key(
        kb,
    ) == m0.contains_key(kb) && (m0.contains_key(kb) ==> m1[kb] == m0[kb])) by {
        assert(!index_key_set(is.subrange(0, i)).contains(kb)) by {
            if index_key_set(is.subrange(0, i)).contains(kb) {
                let j = choose|j: int|
                    0 <= j < i && (#[trigger] is.subrange(0, i)[j]).key_bytes() == kb;
                assert(is[j] == is.subrange(0, i)[j]);
                assert(index_key_set(is).contains(kb));
            }
        }
        assert(kb != extra) by {
            if kb == extra {
                assert((is[i]).key_bytes() == kb);
                assert(index_key_set(is).contains(kb));
            }
        }
    }
}

/// Position-key variant of `lemma_agrees_from_prefix_ok`.
proof fn lemma_index_agrees_from_prefix_ok(
    m0: Map<Seq<u8>, Seq<u8>>,
    m1: Map<Seq<u8>, Seq<u8>>,
    is: Seq<NodeIndex>,
)
    requires
        m1 == m0.remove_keys(index_key_set(is)),
    ensures
        agrees_off(m0, m1, index_key_set(is)),
{
}

} // verus!
