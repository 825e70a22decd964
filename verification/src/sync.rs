//! The paginated block-fetch pipeline and the sequential collector that
//! applies fetched blocks onto a growing chain.
//!
//! The task turns an accumulator snapshot's ordered leaves into successive
//! batches, consulting local storage before the network; order preservation
//! is a hard contract, because the collector applies results sequentially
//! and out-of-order application corrupts chain state. The collector trusts
//! a previously persisted execution result, verifies fresh blocks, and on a
//! verification failure persists the failed block and reports the origin
//! peer before the error surfaces.

use vstd::prelude::*;

use crate::errors::{CollectError, CollectorState, ConnectBlockError, DeliveryError, StoreError,
    SyncError};
use crate::hash::HashValue;
use crate::storage::copy_slice;

verus! {

/// Height of a block in the chain.
pub type BlockNumber = u64;

/// Identity of a peer that served a block.
#[derive(Clone, Copy, Debug, PartialEq, Eq, Structural)]
pub struct PeerId {
    pub id: u64,
}

/// A ledger block, reduced to what this pipeline reads: its identifier, its
/// header timestamp, and its proof-of-work difficulty. Execution semantics
/// live in the chain collaborator.
#[derive(Clone, Copy, Debug, PartialEq, Eq, Structural)]
pub struct Block {
    pub id: HashValue,
    pub timestamp: u64,
    pub difficulty: u64,
}

impl Block {
    /// The block's identifier.
    pub fn id(&self) -> (r: HashValue)
        ensures
            r == self.id,
    {
        self.id
    }
}

/// A block's previously computed execution result. Its existence means the
/// block was already validated in a prior, interrupted sync.
#[derive(Clone, Copy, Debug, PartialEq, Eq, Structural)]
pub struct BlockInfo {
    pub block_id: HashValue,
    pub total_difficulty: u128,
}

/// A block together with its execution result, ready to connect.
#[derive(Clone, Copy, Debug, PartialEq, Eq, Structural)]
pub struct ExecutedBlock {
    pub block: Block,
    pub block_info: BlockInfo,
}

/// The durable record of a block that failed verification: the block, the
/// peer it came from, and why it was refused.
#[derive(Clone, Copy, Debug, PartialEq, Eq, Structural)]
pub struct FailedBlockRecord {
    pub id: HashValue,
    pub block: Block,
    pub peer_id: Option<PeerId>,
    pub reason: ConnectBlockError,
}

/// Notification that a block was connected to the chain.
#[derive(Clone, Copy, Debug, PartialEq, Eq, Structural)]
pub struct BlockConnectedEvent {
    pub block: Block,
}

/// One transient unit of sync work: a fetched block, its optional prior
/// execution result, and the peer it came from (none when found locally).
#[derive(Clone, Copy, Debug, PartialEq, Eq, Structural)]
pub struct SyncBlockData {
    pub block: Block,
    pub info: Option<BlockInfo>,
    pub peer_id: Option<PeerId>,
}

impl SyncBlockData {
    /// Bundles a block with its optional execution info and origin peer.
    pub fn new(block: Block, block_info: Option<BlockInfo>, peer_id: Option<PeerId>) -> (r: Self)
        ensures
            r == (SyncBlockData { block, info: block_info, peer_id }),
    {
        Self { block, info: block_info, peer_id }
    }

    /// Splits the unit back into its parts.
    pub fn into_parts(self) -> (r: (Block, Option<BlockInfo>, Option<PeerId>))
        ensures
            r == (self.block, self.info, self.peer_id),
    {
        (self.block, self.info, self.peer_id)
    }
}

/// The window of `count` leaves of `leaves` starting at `start`, clipped to
/// the available range.
pub open spec fn leaf_window(leaves: Seq<HashValue>, start: u64, count: u64) -> Seq<HashValue> {
    let total = leaves.len() as int;
    let lo = if start as int <= total {
        start as int
    } else {
        total
    };
    let hi = if start as int + count as int <= total {
        start as int + count as int
    } else {
        total
    };
    leaves.subrange(lo, hi)
}

/// A snapshot of the accumulator's ordered leaf identifiers. The Merkle
/// structure and its proofs belong to the accumulator collaborator; the
/// sync pipeline reads only the ordered leaves.
pub struct MerkleAccumulator {
    pub leaves: Vec<HashValue>,
}

impl View for MerkleAccumulator {
    type V = Seq<HashValue>;

    open spec fn view(&self) -> Seq<HashValue> {
        self.leaves@
    }
}

impl MerkleAccumulator {
    /// Snapshot over the given ordered leaves.
    pub fn new(leaves: Vec<HashValue>) -> (r: Self)
        ensures
            r@ == leaves@,
    {
        MerkleAccumulator { leaves }
    }

    /// Total number of leaves in the snapshot.
    pub fn num_leaves(&self) -> (r: u64)
        ensures
            r == self@.len(),
    {
        self.leaves.len() as u64
    }

    /// Up to `max_size` ordered leaves starting at position `start`; empty
    /// once `start` is past the end.
    pub fn get_leaves(&self, start: u64, max_size: u64) -> (r: Vec<HashValue>)
        ensures
            r@ == leaf_window(self@, start, max_size),
    {
        let mut out: Vec<HashValue> = Vec::new();
        let n: usize = self.leaves.len();
        let total: u64 = n as u64;
        if start >= total {
            proof {
                assert(out@ =~= leaf_window(self@, start, max_size));
            }
            return out;
        }
        let lo: usize = start as usize;
        let remaining: u64 = total - start;
        let take: usize = if max_size <= remaining {
            max_size as usize
        } else {
            remaining as usize
        };
        proof {
            assert(lo + take <= n);
        }
        let mut k: usize = 0;
        while k < take
            invariant
                k <= take,
                n == self.leaves@.len(),
                lo + take <= n,
                out@ == self.leaves@.subrange(lo as int, lo as int + k as int),
            decreases take - k,
        {
            out.push(self.leaves[lo + k]);
            k = k + 1;
            proof {
                assert(out@ =~= self.leaves@.subrange(lo as int, lo as int + k as int));
            }
        }
        proof {
            assert(out@ =~= leaf_window(self@, start, max_size));
        }
        out
    }
}

/// Retrieves blocks from the network by identifier. An asynchronous
/// operation at the wire; this pipeline sees its completed result. A
/// completed fetch answers the request one entry per identifier, in the
/// requested order, each entry carrying its origin peer.
pub trait BlockFetcher {
    /// Fetches the blocks named by `block_ids`, with their origin peers.
    fn fetch_block(&mut self, block_ids: Vec<HashValue>) -> (r: Result<
        Vec<(Block, Option<PeerId>)>,
        SyncError,
    >)
        ensures
            r matches Ok(v) ==> v@.len() == block_ids@.len() && forall|i: int|
                0 <= i < v@.len() ==> (#[trigger] v@[i]).0.id == block_ids@[i],
    ;
}

/// Answers block lookups from the node's own storage: one slot per
/// requested identifier, in the same order, empty where absent locally.
pub trait BlockLocalStore {
    /// Looks the named blocks up locally, with any prior execution info.
    fn get_block_with_info(&self, block_ids: Vec<HashValue>) -> (r: Result<
        Vec<Option<SyncBlockData>>,
        SyncError,
    >)
        ensures
            r matches Ok(v) ==> v@.len() == block_ids@.len() && forall|i: int|
                0 <= i < v@.len() ==> ((#[trigger] v@[i]) matches Some(d) ==> d.block.id
                    == block_ids@[i]),
    ;
}

/// The chain being extended: applies blocks under verification, connects
/// already-executed blocks without re-verification, and persists records of
/// failed blocks. `applied_count` counts verification-executions, `blocks`
/// is the chain so far, `local_time` the chain's clock view.
pub trait Chain: Sized {
    /// The blocks connected so far, oldest first.
    spec fn blocks(&self) -> Seq<Block>;

    /// How many blocks went through verification and execution.
    spec fn applied_count(&self) -> nat;

    /// The chain's view of the current time.
    spec fn local_time(&self) -> u64;

    /// Cumulative proof-of-work of the chain.
    spec fn total_difficulty(&self) -> u128;

    /// Records of blocks that failed verification, oldest first.
    spec fn failed_blocks(&self) -> Seq<FailedBlockRecord>;

    /// Verifies `block` in full and, on success, executes and connects it.
    fn apply(&mut self, block: Block) -> (r: Result<(), ConnectBlockError>)
        ensures
            r is Ok ==> final(self).blocks() == old(self).blocks().push(block),
            r is Err ==> final(self).blocks() == old(self).blocks(),
            final(self).applied_count() == old(self).applied_count() + 1,
            final(self).failed_blocks() == old(self).failed_blocks(),
            final(self).local_time() == old(self).local_time(),
    ;

    /// Like `apply`, under the reduced verifier that skips the
    /// proof-of-work check.
    fn apply_with_verifier(&mut self, block: Block) -> (r: Result<(), ConnectBlockError>)
        ensures
            r is Ok ==> final(self).blocks() == old(self).blocks().push(block),
            r is Err ==> final(self).blocks() == old(self).blocks(),
            final(self).applied_count() == old(self).applied_count() + 1,
            final(self).failed_blocks() == old(self).failed_blocks(),
            final(self).local_time() == old(self).local_time(),
    ;

    /// Connects a block whose execution result already exists, without
    /// re-verification.
    fn connect(&mut self, executed: ExecutedBlock) -> (r: Result<(), ConnectBlockError>)
        ensures
            r is Ok ==> final(self).blocks() == old(self).blocks().push(executed.block),
            r is Err ==> final(self).blocks() == old(self).blocks(),
            final(self).applied_count() == old(self).applied_count(),
            final(self).failed_blocks() == old(self).failed_blocks(),
            final(self).local_time() == old(self).local_time(),
    ;

    /// The chain's cumulative total difficulty.
    fn get_total_difficulty(&self) -> (r: Result<u128, StoreError>)
        ensures
            r matches Ok(d) ==> d == self.total_difficulty(),
    ;

    /// Advances the chain's clock view to `time` if that is later.
    fn adjust_time(&mut self, time: u64)
        ensures
            final(self).blocks() == old(self).blocks(),
            final(self).applied_count() == old(self).applied_count(),
            final(self).failed_blocks() == old(self).failed_blocks(),
            final(self).total_difficulty() == old(self).total_difficulty(),
            final(self).local_time() == (if time > old(self).local_time() {
                time
            } else {
                old(self).local_time()
            }),
    ;

    /// Persists the record of a block that failed verification.
    fn save_failed_block(
        &mut self,
        id: HashValue,
        block: Block,
        peer_id: Option<PeerId>,
        reason: ConnectBlockError,
    ) -> (r: Result<(), StoreError>)
        ensures
            r is Ok ==> final(self).failed_blocks() == old(self).failed_blocks().push(
                (FailedBlockRecord { id, block, peer_id, reason }),
            ),
            r is Err ==> final(self).failed_blocks() == old(self).failed_blocks(),
            final(self).blocks() == old(self).blocks(),
            final(self).applied_count() == old(self).applied_count(),
            final(self).local_time() == old(self).local_time(),
            final(self).total_difficulty() == old(self).total_difficulty(),
    ;
}

/// Reports peer misbehavior to the network layer. `reports` records what
/// was reported, oldest first.
pub trait NetworkService {
    /// Everything reported so far.
    spec fn reports(&self) -> Seq<(PeerId, ConnectBlockError)>;

    /// Reports `peer_id` as misbehaving, with the refusal as the reason.
    fn report_peer(&mut self, peer_id: PeerId, reason: ConnectBlockError)
        ensures
            final(self).reports() == old(self).reports().push((peer_id, reason)),
    ;
}

/// Delivers block-connected notifications. Delivery may fail; failure is
/// non-fatal to the pipeline.
pub trait BlockConnectedEventHandle {
    /// The blocks announced so far.
    spec fn events(&self) -> Seq<Block>;

    /// Delivers one notification.
    fn handle(&mut self, event: BlockConnectedEvent) -> (r: Result<(), DeliveryError>)
        ensures
            r is Ok ==> final(self).events() == old(self).events().push(event.block),
            r is Err ==> final(self).events() == old(self).events(),
    ;
}

/// One slot of a merged batch: an identifier the local store resolved
/// keeps the local store's data unchanged — above all its prior execution
/// info — and an identifier absent locally is answered by a fetched entry
/// with the matching identifier, carrying no execution info and that
/// entry's origin peer.
pub open spec fn merged_slot(
    ids: Seq<HashValue>,
    local: Seq<Option<SyncBlockData>>,
    fetched: Seq<(Block, Option<PeerId>)>,
    out: Seq<SyncBlockData>,
    i: int,
) -> bool
    recommends
        0 <= i < ids.len(),
        local.len() == ids.len(),
        out.len() == ids.len(),
{
    &&& (local[i] matches Some(d) ==> out[i] == d)
    &&& (local[i] is None ==> exists|j: int|
        0 <= j < fetched.len() && (#[trigger] fetched[j]).0.id == ids[i] && out[i] == (
        SyncBlockData { block: fetched[j].0, info: None, peer_id: fetched[j].1 }))
}

/// Merges the local store's slots and the fetched blocks back into the
/// identifiers' own order, however the network answered: one entry per
/// identifier, in exactly the identifiers' order, each entry keeping its
/// source's data (`merged_slot`). An identifier that neither source
/// answered fails the merge with an unresolved-identifier error.
pub fn merge_local_and_fetched(
    block_ids: &Vec<HashValue>,
    local: &Vec<Option<SyncBlockData>>,
    fetched: &Vec<(Block, Option<PeerId>)>,
) -> (r: Result<Vec<SyncBlockData>, SyncError>)
    requires
        local@.len() == block_ids@.len(),
        forall|i: int|
            0 <= i < local@.len() ==> ((#[trigger] local@[i]) matches Some(d) ==> d.block.id
                == block_ids@[i]),
    ensures
        r matches Ok(out) ==> out@.len() == block_ids@.len() && (forall|i: int|
            0 <= i < out@.len() ==> (#[trigger] out@[i]).block.id == block_ids@[i]) && (forall|i: int|
            0 <= i < out@.len() ==> #[trigger] merged_slot(block_ids@, local@, fetched@, out@, i)),
        r is Err ==> r == Err::<Vec<SyncBlockData>, SyncError>(SyncError::Unresolved) && (exists|i: int|
            0 <= i < block_ids@.len() && (#[trigger] local@[i]) is None && (forall|j: int|
                0 <= j < fetched@.len() ==> (#[trigger] fetched@[j]).0.id != block_ids@[i])),
{
    let mut result: Vec<SyncBlockData> = Vec::new();
    let mut i: usize = 0;
    while i < block_ids.len()
        invariant
            i <= block_ids@.len(),
            result@.len() == i,
            local@.len() == block_ids@.len(),
            forall|k: int|
                0 <= k < local@.len() ==> ((#[trigger] local@[k]) matches Some(d) ==> d.block.id
                    == block_ids@[k]),
            forall|k: int| 0 <= k < i ==> (#[trigger] result@[k]).block.id == block_ids@[k],
            forall|k: int|
                0 <= k < i ==> #[trigger] merged_slot(block_ids@, local@, fetched@, result@, k),
        decreases block_ids@.len() - i,
    {
        let slot = local[i];
        let ghost pre = result@;
        match slot {
            Some(d) => {
                result.push(d);
            },
            None => {
                let mut j: usize = 0;
                let mut found: Option<SyncBlockData> = None;
                while j < fetched.len() && found.is_none()
                    invariant
                        j <= fetched@.len(),
                        i < block_ids@.len(),
                        found matches Some(d) ==> exists|jj: int|
                            0 <= jj < fetched@.len() && (#[trigger] fetched@[jj]).0.id
                                == block_ids@[i as int] && d == (SyncBlockData {
                                block: fetched@[jj].0,
                                info: None,
                                peer_id: fetched@[jj].1,
                            }),
                        found is None ==> forall|jj: int|
                            0 <= jj < j ==> (#[trigger] fetched@[jj]).0.id != block_ids@[i as int],
                    decreases fetched@.len() - j,
                {
                    let (b, p) = fetched[j];
                    if b.id == block_ids[i] {
                        found = Some(SyncBlockData::new(b, None, p));
                    }
                    j = j + 1;
                }
                match found {
                    Some(d) => {
                        result.push(d);
                    },
                    None => {
                        proof {
                            assert(local@[i as int] is None);
                        }
                        return Err(SyncError::Unresolved);
                    },
                }
            },
        }
        i = i + 1;
        proof {
            assert forall|k: int|
                0 <= k < i implies #[trigger] merged_slot(
                block_ids@,
                local@,
                fetched@,
                result@,
                k,
            ) by {
                if k < i - 1 {
                    assert(merged_slot(block_ids@, local@, fetched@, pre, k));
                    assert(result@[k] == pre[k]);
                }
            }
        }
    }
    Ok(result)
}

/// One step of the paginated block-fetch: an immutable cursor over the
/// accumulator snapshot. `next` returns the advanced state; a driver loop
/// threads the returned states explicitly.
pub struct BlockSyncTask<F: BlockFetcher, S: BlockLocalStore> {
    pub accumulator: MerkleAccumulator,
    pub start_number: BlockNumber,
    pub fetcher: F,
    pub check_local_store: bool,
    pub local_store: S,
    pub batch_size: u64,
}

impl<F: BlockFetcher, S: BlockLocalStore> BlockSyncTask<F, S> {
    /// The identifiers this step is responsible for.
    pub open spec fn batch_ids(&self) -> Seq<HashValue> {
        leaf_window(self.accumulator@, self.start_number, self.batch_size)
    }

    /// Builds the task at cursor `start_number`, reading `batch_size`
    /// leaves per step, consulting `local_store` first when
    /// `check_local_store` is set.
    pub fn new(
        accumulator: MerkleAccumulator,
        start_number: BlockNumber,
        fetcher: F,
        check_local_store: bool,
        local_store: S,
        batch_size: u64,
    ) -> (r: Self)
        ensures
            r.accumulator == accumulator,
            r.start_number == start_number,
            r.fetcher == fetcher,
            r.check_local_store == check_local_store,
            r.local_store == local_store,
            r.batch_size == batch_size,
    {
        Self { accumulator, start_number, fetcher, check_local_store, local_store, batch_size }
    }

    /// Produces this step's batch. An empty leaf window yields an empty
    /// batch, the normal exhaustion signal. With local-first enabled, the
    /// result covers every identifier of the window, in exactly the
    /// window's order, however the network answered; an identifier that
    /// neither the local store nor the fetch resolved fails the step.
    /// Without local-first, the whole window is fetched from the network,
    /// which answers it in the window's order: one entry per identifier,
    /// each with no execution info.
    pub fn new_sub_task(&mut self) -> (r: Result<Vec<SyncBlockData>, SyncError>)
        ensures
            final(self).accumulator == old(self).accumulator,
            final(self).start_number == old(self).start_number,
            final(self).batch_size == old(self).batch_size,
            final(self).check_local_store == old(self).check_local_store,
            old(self).batch_ids().len() == 0 ==> (r matches Ok(b) && b@.len() == 0),
            old(self).check_local_store ==> (r matches Ok(b) ==> b@.len() == old(self).batch_ids().len() && (forall|i: int|
                0 <= i < b@.len() ==> (#[trigger] b@[i]).block.id == old(self).batch_ids()[i])),
            !old(self).check_local_store ==> (r matches Ok(b) ==> b@.len() == old(self).batch_ids().len() && (forall|i: int|
                0 <= i < b@.len() ==> (#[trigger] b@[i]).block.id == old(self).batch_ids()[i]
                    && b@[i].info is None)),
    {
        let block_ids = self.accumulator.get_leaves(self.start_number, self.batch_size);
        if block_ids.len() == 0 {
            return Ok(Vec::new());
        }
        if self.check_local_store {
            let block_with_info = match self.local_store.get_block_with_info(
                copy_slice(block_ids.as_slice()),
            ) {
                Ok(v) => v,
                Err(e) => {
                    return Err(e);
                },
            };
            let mut no_exist_block_ids: Vec<HashValue> = Vec::new();
            let mut i: usize = 0;
            while i < block_ids.len()
                invariant
                    i <= block_ids@.len(),
                    block_with_info@.len() == block_ids@.len(),
                    forall|k: int|
                        0 <= k < block_with_info@.len() ==> ((#[trigger] block_with_info@[k])
                            matches Some(d) ==> d.block.id == block_ids@[k]),
                    block_ids@ == old(self).batch_ids(),
                    self.accumulator == old(self).accumulator,
                    self.start_number == old(self).start_number,
                    self.batch_size == old(self).batch_size,
                    self.check_local_store == old(self).check_local_store,
                decreases block_ids@.len() - i,
            {
                if block_with_info[i].is_none() {
                    no_exist_block_ids.push(block_ids[i]);
                }
                i = i + 1;
            }
            let fetched: Vec<(Block, Option<PeerId>)> = if no_exist_block_ids.len() == 0 {
                Vec::new()
            } else {
                match self.fetcher.fetch_block(no_exist_block_ids) {
                    Ok(v) => v,
                    Err(e) => {
                        return Err(e);
                    },
                }
            };
            match merge_local_and_fetched(&block_ids, &block_with_info, &fetched) {
                Ok(result) => Ok(result),
                Err(e) => Err(e),
            }
        } else {
            let ghost requested = block_ids@;
            let fetched = match self.fetcher.fetch_block(block_ids) {
                Ok(v) => v,
                Err(e) => {
                    return Err(e);
                },
            };
            let mut result: Vec<SyncBlockData> = Vec::new();
            let mut i: usize = 0;
            while i < fetched.len()
                invariant
                    i <= fetched@.len(),
                    result@.len() == i,
                    requested == old(self).batch_ids(),
                    fetched@.len() == requested.len(),
                    forall|k: int|
                        0 <= k < fetched@.len() ==> (#[trigger] fetched@[k]).0.id == requested[k],
                    forall|k: int|
                        0 <= k < i ==> (#[trigger] result@[k]).block.id == requested[k]
                            && result@[k].info is None,
                    self.accumulator == old(self).accumulator,
                    self.start_number == old(self).start_number,
                    self.batch_size == old(self).batch_size,
                    self.check_local_store == old(self).check_local_store,
                decreases fetched@.len() - i,
            {
                let (b, p) = fetched[i];
                result.push(SyncBlockData::new(b, None, p));
                i = i + 1;
            }
            Ok(result)
        }
    }

    /// Advances the cursor by one batch; no further state once the advanced
    /// cursor would pass the snapshot's total leaf count.
    pub fn next(self) -> (r: Option<Self>)
        requires
            self.start_number + self.batch_size <= u64::MAX,
        ensures
            (self.start_number + self.batch_size > self.accumulator@.len()) <==> r is None,
            r matches Some(t) ==> t.start_number == self.start_number + self.batch_size
                && t.accumulator == self.accumulator && t.batch_size == self.batch_size
                && t.check_local_store == self.check_local_store && t.fetcher == self.fetcher
                && t.local_store == self.local_store,
    {
        let next_start_number = self.start_number + self.batch_size;
        if next_start_number > self.accumulator.num_leaves() {
            None
        } else {
            Some(
                Self {
                    accumulator: self.accumulator,
                    start_number: next_start_number,
                    fetcher: self.fetcher,
                    check_local_store: self.check_local_store,
                    local_store: self.local_store,
                    batch_size: self.batch_size,
                },
            )
        }
    }

    /// Remaining-leaf count against the snapshot: a progress hint, not a
    /// bound on future work, since the live accumulator may grow.
    pub fn total_items(&self) -> (r: Option<u64>)
        requires
            self.start_number <= self.accumulator@.len(),
        ensures
            r == Some((self.accumulator@.len() - self.start_number) as u64),
    {
        Some(self.accumulator.num_leaves() - self.start_number)
    }
}

/// The sequential state machine that applies fetched blocks onto the chain,
/// strictly in task order.
pub struct BlockCollector<N: NetworkService, H: BlockConnectedEventHandle, C: Chain> {
    pub current_block_info: BlockInfo,
    pub chain: C,
    pub event_handle: H,
    pub network: N,
    pub skip_pow_verify: bool,
}

impl<N: NetworkService, H: BlockConnectedEventHandle, C: Chain> BlockCollector<N, H, C> {
    /// Builds the collector over the node's current best block info, the
    /// chain to extend, an event sink, and the network reporter.
    pub fn new_with_handle(
        current_block_info: BlockInfo,
        chain: C,
        event_handle: H,
        network: N,
        skip_pow_verify: bool,
    ) -> (r: Self)
        ensures
            r.current_block_info == current_block_info,
            r.chain == chain,
            r.event_handle == event_handle,
            r.network == network,
            r.skip_pow_verify == skip_pow_verify,
    {
        Self { current_block_info, chain, event_handle, network, skip_pow_verify }
    }

    /// Applies one fresh block under verification. On a verification
    /// failure that is not a future-block condition, the failed block is
    /// persisted and the origin peer, when known, is reported — both before
    /// the error returns. A future-block condition is recoverable and never
    /// attributed to the peer.
    pub fn apply_block(&mut self, block: Block, peer_id: Option<PeerId>) -> (r: Result<
        (),
        CollectError,
    >)
        ensures
            final(self).chain.applied_count() == old(self).chain.applied_count() + 1,
            final(self).chain.local_time() == old(self).chain.local_time(),
            final(self).event_handle == old(self).event_handle,
            final(self).current_block_info == old(self).current_block_info,
            final(self).skip_pow_verify == old(self).skip_pow_verify,
            r is Ok ==> final(self).chain.blocks() == old(self).chain.blocks().push(block)
                && final(self).chain.failed_blocks() == old(self).chain.failed_blocks() && final(self).network.reports() == old(self).network.reports(),
            r is Err ==> final(self).chain.blocks() == old(self).chain.blocks(),
            r is Err ==> (r matches Err(CollectError::Connect(_)) || r matches Err(
                CollectError::SideEffect(_),
            )),
            r == Err::<(), CollectError>(CollectError::Connect(ConnectBlockError::FutureBlock))
                ==> final(self).chain.failed_blocks() == old(self).chain.failed_blocks() && final(self).network.reports() == old(self).network.reports(),
            r == Err::<(), CollectError>(CollectError::Connect(ConnectBlockError::VerifyFailed))
                ==> final(self).chain.failed_blocks() == old(self).chain.failed_blocks().push(
                (FailedBlockRecord {
                    id: block.id,
                    block,
                    peer_id,
                    reason: ConnectBlockError::VerifyFailed,
                }),
            ) && (peer_id matches Some(p) ==> final(self).network.reports() == old(self).network.reports().push((p, ConnectBlockError::VerifyFailed))) && (peer_id is None
                ==> final(self).network.reports() == old(self).network.reports()),
            r matches Err(CollectError::SideEffect(_)) ==> final(self).chain.failed_blocks() == old(self).chain.failed_blocks() && final(self).network.reports() == old(self).network.reports(),
    {
        let apply_result = if self.skip_pow_verify {
            self.chain.apply_with_verifier(block)
        } else {
            self.chain.apply(block)
        };
        match apply_result {
            Ok(_) => Ok(()),
            Err(err) => match err {
                ConnectBlockError::FutureBlock => Err(
                    CollectError::Connect(ConnectBlockError::FutureBlock),
                ),
                ConnectBlockError::VerifyFailed => {
                    let block_id = block.id();
                    match self.chain.save_failed_block(
                        block_id,
                        block,
                        peer_id,
                        ConnectBlockError::VerifyFailed,
                    ) {
                        Ok(_) => {
                            match peer_id {
                                Some(peer) => {
                                    self.network.report_peer(
                                        peer,
                                        ConnectBlockError::VerifyFailed,
                                    );
                                },
                                None => {},
                            }
                            Err(CollectError::Connect(ConnectBlockError::VerifyFailed))
                        },
                        Err(e) => Err(CollectError::SideEffect(e)),
                    }
                },
            },
        }
    }

    /// `apply_block` with no origin peer, exposed for drivers that replay a
    /// single block outside a task.
    pub fn apply_block_for_test(&mut self, block: Block) -> (r: Result<(), CollectError>)
        ensures
            r is Ok ==> final(self).chain.blocks() == old(self).chain.blocks().push(block),
            r is Err ==> final(self).chain.blocks() == old(self).chain.blocks(),
            final(self).chain.applied_count() == old(self).chain.applied_count() + 1,
    {
        self.apply_block(block, None)
    }

    /// Consumes one unit of sync work, strictly in task order. A unit that
    /// carries an execution result is connected without re-verification;
    /// a fresh unit is applied under verification, the chain clock advances
    /// to its timestamp, and when the chain's total difficulty now exceeds
    /// the node's previously known best, a best-effort connected
    /// notification goes to the event sink (delivery failure is tolerated).
    /// A failed application leaves the chain and its clock untouched. A
    /// successful collect always asks for more input.
    pub fn collect(&mut self, item: SyncBlockData) -> (r: Result<CollectorState, CollectError>)
        ensures
            final(self).current_block_info == old(self).current_block_info,
            final(self).skip_pow_verify == old(self).skip_pow_verify,
            r matches Ok(s) ==> s == CollectorState::Need && final(self).chain.blocks() == old(self).chain.blocks().push(item.block),
            item.info is Some ==> final(self).chain.applied_count() == old(self).chain.applied_count() && final(self).chain.failed_blocks() == old(self).chain.failed_blocks() && final(self).network.reports() == old(self).network.reports()
                && final(self).event_handle == old(self).event_handle && final(self).chain.local_time() == old(self).chain.local_time(),
            item.info is Some && r is Err ==> final(self).chain.blocks() == old(self).chain.blocks()
                && (r matches Err(CollectError::Connect(_))),
            item.info is None && r is Ok ==> final(self).chain.applied_count() == old(self).chain.applied_count() + 1 && final(self).chain.failed_blocks() == old(self).chain.failed_blocks() && final(self).network.reports() == old(self).network.reports()
                && final(self).chain.local_time() == (if item.block.timestamp > old(self).chain.local_time() {
                item.block.timestamp
            } else {
                old(self).chain.local_time()
            }) && (final(self).chain.total_difficulty()
                > old(self).current_block_info.total_difficulty ==> (final(self).event_handle.events() == old(self).event_handle.events().push(item.block) || final(self).event_handle.events() == old(self).event_handle.events())) && (final(self).chain.total_difficulty() <= old(self).current_block_info.total_difficulty ==> final(self).event_handle.events() == old(self).event_handle.events()),
            item.info is None && r is Err ==> final(self).event_handle == old(self).event_handle,
            item.info is None ==> (r matches Err(CollectError::Connect(ConnectBlockError::FutureBlock))
                ==> final(self).chain.blocks() == old(self).chain.blocks() && final(self).chain.failed_blocks() == old(self).chain.failed_blocks() && final(self).network.reports() == old(self).network.reports()),
            item.info is None ==> (r matches Err(CollectError::Connect(ConnectBlockError::VerifyFailed))
                ==> final(self).chain.blocks() == old(self).chain.blocks() && final(self).chain.failed_blocks() == old(self).chain.failed_blocks().push(
                (FailedBlockRecord {
                    id: item.block.id,
                    block: item.block,
                    peer_id: item.peer_id,
                    reason: ConnectBlockError::VerifyFailed,
                }),
            ) && (item.peer_id matches Some(p) ==> final(self).network.reports() == old(self).network.reports().push((p, ConnectBlockError::VerifyFailed))) && (item.peer_id is None
                ==> final(self).network.reports() == old(self).network.reports())),
            item.info is None ==> (r matches Err(CollectError::SideEffect(_)) ==> final(self).chain.blocks() == old(self).chain.blocks() && final(self).chain.failed_blocks()
                == old(self).chain.failed_blocks() && final(self).network.reports() == old(self).network.reports()),
            item.info is None ==> (r matches Err(CollectError::Difficulty(_)) ==> final(self).chain.blocks() == old(self).chain.blocks().push(item.block)
                && final(self).chain.local_time() == (if item.block.timestamp > old(self).chain.local_time() {
                    item.block.timestamp
                } else {
                    old(self).chain.local_time()
                })),
            item.info is None ==> (r matches Err(CollectError::Connect(_)) ==> final(self).chain.local_time() == old(self).chain.local_time()),
            item.info is None ==> (r matches Err(CollectError::SideEffect(_)) ==> final(self).chain.local_time() == old(self).chain.local_time()),
    {
        let (block, block_info, peer_id) = item.into_parts();
        let timestamp = block.timestamp;
        match block_info {
            Some(block_info) => {
                match self.chain.connect(ExecutedBlock { block, block_info }) {
                    Ok(_) => {},
                    Err(e) => {
                        return Err(CollectError::Connect(e));
                    },
                }
            },
            None => {
                match self.apply_block(block, peer_id) {
                    Ok(_) => {},
                    Err(e) => {
                        return Err(e);
                    },
                }
                self.chain.adjust_time(timestamp);
                let total_difficulty = match self.chain.get_total_difficulty() {
                    Ok(d) => d,
                    Err(e) => {
                        return Err(CollectError::Difficulty(e));
                    },
                };
                if total_difficulty > self.current_block_info.total_difficulty {
                    match self.event_handle.handle(BlockConnectedEvent { block }) {
                        Ok(_) => {},
                        Err(_) => {},
                    }
                }
            },
        }
        Ok(CollectorState::Need)
    }

    /// One-shot: yields the final chain. The collector is consumed.
    pub fn finish(self) -> (r: Result<C, CollectError>)
        ensures
            r matches Ok(c) && c == self.chain,
    {
        Ok(self.chain)
    }
}

} // verus!
