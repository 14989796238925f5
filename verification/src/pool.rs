//! The prover data pool: one FIFO queue of committed blocks per supported
//! block-size class, plus a cache of finished witness data keyed by block
//! number, refilled and advanced by a maintenance cycle and read by the
//! proof consumer.

use vstd::prelude::*;
use crate::ops::{Operation, ReplayError};
use crate::replay::{ProverData, build_prover_data, spec_build_ok, spec_build_err, spec_build_post};
use crate::store::{Storage, spec_load_commits, spec_eligible};

verus! {

/// The backlog of committed blocks of one size class awaiting witness
/// preparation, with the cursor into the ledger's block numbering.
pub struct BlockSizedOperationsQueue {
    operations: Vec<Operation>,
    last_loaded_block: u32,
    block_size: usize,
}

impl BlockSizedOperationsQueue {
    /// The queued blocks, oldest first.
    pub closed spec fn ops(&self) -> Seq<Operation> {
        self.operations@
    }

    /// The highest block number already pulled from storage for this class.
    pub closed spec fn last_loaded(&self) -> u32 {
        self.last_loaded_block
    }

    /// This queue's block-size class.
    pub closed spec fn size_class(&self) -> usize {
        self.block_size
    }

    /// Queue order matches ascending block numbers, every queued block is
    /// of this class and at most the cursor, and the cursor sits on the
    /// newest queued block while any is queued.
    pub open spec fn wf(&self) -> bool {
        &&& forall|i: int, j: int| 0 <= i < j < self.ops().len()
            ==> self.ops()[i].block.block_number < self.ops()[j].block.block_number
        &&& forall|i: int| 0 <= i < self.ops().len()
            ==> (#[trigger] self.ops()[i]).block.block_size == self.size_class()
        &&& forall|i: int| 0 <= i < self.ops().len()
            ==> (#[trigger] self.ops()[i]).block.block_number <= self.last_loaded()
        &&& self.ops().len() > 0 ==> self.ops().last().block.block_number == self.last_loaded()
    }

    /// An empty queue for one size class.
    pub fn new(block_size: usize) -> (r: BlockSizedOperationsQueue)
        ensures
            r.wf(),
            r.ops() == Seq::<Operation>::empty(),
            r.last_loaded() == 0,
            r.size_class() == block_size,
    {
        BlockSizedOperationsQueue {
            operations: Vec::new(),
            last_loaded_block: 0,
            block_size,
        }
    }

    /// How many blocks are queued.
    pub fn backlog_len(&self) -> (r: usize)
        ensures
            r == self.ops().len(),
    {
        self.operations.len()
    }

    /// The cursor: the highest block number already pulled from storage.
    pub fn last_loaded_block(&self) -> (r: u32)
        ensures
            r == self.last_loaded(),
    {
        self.last_loaded_block
    }

    /// Pulls further committed blocks of this class from storage when the
    /// backlog is below `limit`, appending them in storage order and
    /// advancing the cursor to the newest queued block.
    pub fn take_next_commits_if_needed(&mut self, storage: &Storage, limit: i64) -> (r: Result<
        (),
        ReplayError,
    >)
        requires
            old(self).wf(),
            storage.wf(),
        ensures
            r is Ok,
            final(self).wf(),
            spec_refill_post(*old(self), *final(self), *storage, limit),
    {
        proof {
            lemma_eligible_props(storage.commits@, self.block_size, self.last_loaded_block);
        }
        let lim: u64 = if limit <= 0 { 0 } else { limit as u64 };
        if (self.operations.len() as u64) < lim {
            let loaded = storage.load_unverified_commits_after_block(
                self.block_size,
                self.last_loaded_block,
                limit,
            );
            let ghost pre = self.operations@;
            let mut k: usize = 0;
            while k < loaded.len()
                invariant
                    0 <= k <= loaded@.len(),
                    self.operations@ == pre + loaded@.take(k as int),
                    self.last_loaded_block == old(self).last_loaded_block,
                    self.block_size == old(self).block_size,
                decreases loaded@.len() - k,
            {
                proof {
                    assert(loaded@.take(k + 1) =~= loaded@.take(k as int).push(loaded@[k as int]));
                    assert(pre + loaded@.take(k as int).push(loaded@[k as int])
                        =~= (pre + loaded@.take(k as int)).push(loaded@[k as int]));
                }
                self.operations.push(loaded[k]);
                k = k + 1;
            }
            proof {
                assert(loaded@.take(loaded@.len() as int) =~= loaded@);
            }
            if self.operations.len() > 0 {
                self.last_loaded_block = self.operations[self.operations.len() - 1].block.block_number;
            }
            proof {
                let e = spec_eligible(storage.commits@, old(self).size_class(), old(self).last_loaded());
                assert(loaded@.len() <= e.len());
                assert(forall|i: int| 0 <= i < loaded@.len() ==> loaded@[i] == e[i]);
            }
        }
        Ok(())
    }

    /// Pops the oldest queued block and replays it, returning its block
    /// number and witness data; the popped block is gone from the backlog
    /// whether or not the replay succeeds.
    pub fn prepare_next_if_any(&mut self, storage: &Storage) -> (r: Result<
        Option<(u32, ProverData)>,
        ReplayError,
    >)
        requires
            old(self).wf(),
            storage.wf(),
        ensures
            final(self).wf(),
            final(self).last_loaded() == old(self).last_loaded(),
            final(self).size_class() == old(self).size_class(),
            match r {
                Ok(Some((bn, pd))) => {
                    &&& old(self).ops().len() > 0
                    &&& bn == old(self).ops()[0].block.block_number
                    &&& final(self).ops() == old(self).ops().drop_first()
                    &&& spec_build_post(*storage, old(self).ops()[0], Result::Ok(pd))
                },
                Ok(None) => old(self).ops().len() == 0 && final(self).ops() == old(self).ops(),
                Err(e) => {
                    &&& old(self).ops().len() > 0
                    &&& final(self).ops() == old(self).ops().drop_first()
                    &&& !spec_build_ok(*storage, old(self).ops()[0])
                    &&& e == spec_build_err(*storage, old(self).ops()[0])
                },
            },
    {
        if self.operations.len() == 0 {
            return Ok(None);
        }
        let op = self.operations.remove(0);
        proof {
            assert(self.operations@ =~= old(self).ops().drop_first());
        }
        match build_prover_data(storage, &op) {
            Ok(pd) => Ok(Some((op.block.block_number, pd))),
            Err(e) => Err(e),
        }
    }
}

/// What one refill pass does to a queue: nothing when the backlog is
/// already at the limit, else exactly the storage answer appended and the
/// cursor moved to the newest queued block.
pub open spec fn spec_refill_post(
    oldq: BlockSizedOperationsQueue,
    newq: BlockSizedOperationsQueue,
    st: Storage,
    limit: i64,
) -> bool {
    let lim: nat = if limit <= 0 { 0 } else { limit as nat };
    let loaded = spec_load_commits(st.commits@, oldq.size_class(), oldq.last_loaded(), limit);
    &&& newq.size_class() == oldq.size_class()
    &&& if oldq.ops().len() < lim {
        &&& newq.ops() == oldq.ops() + loaded
        &&& newq.last_loaded() == if newq.ops().len() > 0 {
            newq.ops().last().block.block_number
        } else {
            oldq.last_loaded()
        }
    } else {
        &&& newq.ops() == oldq.ops()
        &&& newq.last_loaded() == oldq.last_loaded()
    }
}

/// The blocks a refill query filters out of ascending commits are of the
/// requested class, newer than the cursor, ascending, and each present
/// among the commits.
pub proof fn lemma_eligible_props(commits: Seq<Operation>, block_size: usize, after: u32)
    requires
        forall|i: int, j: int| 0 <= i < j < commits.len()
            ==> commits[i].block.block_number < commits[j].block.block_number,
    ensures
        forall|k: int| 0 <= k < spec_eligible(commits, block_size, after).len()
            ==> (#[trigger] spec_eligible(commits, block_size, after)[k]).block.block_size == block_size
                && spec_eligible(commits, block_size, after)[k].block.block_number > after,
        forall|k: int, l: int| 0 <= k < l < spec_eligible(commits, block_size, after).len()
            ==> spec_eligible(commits, block_size, after)[k].block.block_number
                < spec_eligible(commits, block_size, after)[l].block.block_number,
        forall|k: int| 0 <= k < spec_eligible(commits, block_size, after).len()
            ==> exists|j: int| 0 <= j < commits.len()
                && commits[j] == (#[trigger] spec_eligible(commits, block_size, after)[k]),
    decreases commits.len(),
{
    if commits.len() > 0 {
        let d = commits.drop_last();
        assert(forall|i: int, j: int| 0 <= i < j < d.len()
            ==> d[i].block.block_number < d[j].block.block_number);
        lemma_eligible_props(d, block_size, after);
        let e = spec_eligible(commits, block_size, after);
        let ed = spec_eligible(d, block_size, after);
        assert forall|k: int| 0 <= k < ed.len()
            implies ed[k].block.block_number < commits.last().block.block_number by {
            let j = choose|j: int| 0 <= j < d.len() && d[j] == ed[k];
            assert(commits[j] == d[j]);
        }
        assert forall|k: int| 0 <= k < ed.len()
            implies exists|j: int| 0 <= j < commits.len() && commits[j] == (#[trigger] ed[k]) by {
            let j = choose|j: int| 0 <= j < d.len() && d[j] == ed[k];
            assert(commits[j] == ed[k]);
        }
    }
}

/// The finished-witness cache entry for a block number, if present
/// (first match; the pool keeps keys unique).
pub open spec fn spec_cache_lookup(s: Seq<(u32, ProverData)>, k: u32) -> Option<ProverData>
    decreases s.len(),
{
    if s.len() == 0 {
        None
    } else if s.first().0 == k {
        Some(s.first().1)
    } else {
        spec_cache_lookup(s.drop_first(), k)
    }
}

/// Cache keys are unique.
pub open spec fn cache_unique(s: Seq<(u32, ProverData)>) -> bool {
    forall|i: int, j: int| 0 <= i < j < s.len() ==> s[i].0 != s[j].0
}

proof fn lemma_cache_lookup_absent(s: Seq<(u32, ProverData)>, k: u32)
    requires
        forall|i: int| 0 <= i < s.len() ==> s[i].0 != k,
    ensures
        spec_cache_lookup(s, k) is None,
    decreases s.len(),
{
    if s.len() > 0 {
        assert(forall|i: int| 0 <= i < s.drop_first().len() ==> s.drop_first()[i].0 != k);
        lemma_cache_lookup_absent(s.drop_first(), k);
    }
}

proof fn lemma_cache_lookup_found(s: Seq<(u32, ProverData)>, i: int)
    requires
        cache_unique(s),
        0 <= i < s.len(),
    ensures
        spec_cache_lookup(s, s[i].0) == Some(s[i].1),
    decreases s.len(),
{
    if i == 0 {
    } else {
        assert(cache_unique(s.drop_first()));
        assert(s.drop_first()[i - 1] == s[i]);
        assert(s.first().0 != s[i].0);
        lemma_cache_lookup_found(s.drop_first(), i - 1);
    }
}

proof fn lemma_cache_lookup_other(s: Seq<(u32, ProverData)>, i: int, k: u32)
    requires
        0 <= i < s.len(),
        s[i].0 != k,
    ensures
        spec_cache_lookup(s.remove(i), k) == spec_cache_lookup(s, k),
    decreases s.len(),
{
    if i == 0 {
        assert(s.remove(0) =~= s.drop_first());
    } else {
        assert(s.remove(i).first() == s.first());
        assert(s.remove(i).drop_first() =~= s.drop_first().remove(i - 1));
        assert(s.drop_first()[i - 1] == s[i]);
        lemma_cache_lookup_other(s.drop_first(), i - 1, k);
    }
}

/// The prover data pool.
pub struct ProversDataPool {
    limit: i64,
    op_queues: Vec<BlockSizedOperationsQueue>,
    prepared: Vec<(u32, ProverData)>,
}

impl ProversDataPool {
    /// The per-class queues, in construction order.
    pub closed spec fn queues(&self) -> Seq<BlockSizedOperationsQueue> {
        self.op_queues@
    }

    /// The finished-witness cache as (block number, data) pairs.
    pub closed spec fn cache(&self) -> Seq<(u32, ProverData)> {
        self.prepared@
    }

    /// The configured backlog limit.
    pub closed spec fn limit_spec(&self) -> i64 {
        self.limit
    }

    /// Every queue is well formed and cache keys are unique.
    pub open spec fn wf(&self) -> bool {
        &&& forall|i: int| 0 <= i < self.queues().len() ==> (#[trigger] self.queues()[i]).wf()
        &&& cache_unique(self.cache())
    }

    /// A pool with one empty queue per supported block-size class.
    pub fn new(limit: i64, block_sizes: &Vec<usize>) -> (r: ProversDataPool)
        ensures
            r.wf(),
            r.limit_spec() == limit,
            r.cache() == Seq::<(u32, ProverData)>::empty(),
            r.queues().len() == block_sizes@.len(),
            forall|i: int| 0 <= i < block_sizes@.len()
                ==> (#[trigger] r.queues()[i]).size_class() == block_sizes@[i]
                    && r.queues()[i].ops().len() == 0
                    && r.queues()[i].last_loaded() == 0,
    {
        let mut op_queues: Vec<BlockSizedOperationsQueue> = Vec::new();
        let mut i: usize = 0;
        while i < block_sizes.len()
            invariant
                0 <= i <= block_sizes@.len(),
                op_queues@.len() == i,
                forall|j: int| 0 <= j < i ==> (#[trigger] op_queues@[j]).wf()
                    && op_queues@[j].size_class() == block_sizes@[j]
                    && op_queues@[j].ops().len() == 0
                    && op_queues@[j].last_loaded() == 0,
            decreases block_sizes@.len() - i,
        {
            op_queues.push(BlockSizedOperationsQueue::new(block_sizes[i]));
            i = i + 1;
        }
        ProversDataPool { limit, op_queues, prepared: Vec::new() }
    }

    /// Reads the finished witness data for a block, if it is ready and
    /// not yet cleaned up. Reading does not change the pool, so reading
    /// twice returns the identical data.
    pub fn get(&self, block: u32) -> (r: Option<&ProverData>)
        requires
            self.wf(),
        ensures
            match r {
                Some(pd) => spec_cache_lookup(self.cache(), block) == Some(*pd),
                None => spec_cache_lookup(self.cache(), block) is None,
            },
    {
        let mut i: usize = 0;
        while i < self.prepared.len()
            invariant
                self.wf(),
                0 <= i <= self.prepared@.len(),
                forall|j: int| 0 <= j < i ==> self.prepared@[j].0 != block,
            decreases self.prepared@.len() - i,
        {
            if self.prepared[i].0 == block {
                proof {
                    lemma_cache_lookup_found(self.prepared@, i as int);
                }
                return Some(&self.prepared[i].1);
            }
            i = i + 1;
        }
        proof {
            lemma_cache_lookup_absent(self.prepared@, block);
        }
        None
    }

    /// Releases a block's cache entry once its proof has been produced;
    /// a later `get` for the same block finds nothing.
    pub fn clean_up(&mut self, block: u32)
        requires
            old(self).wf(),
        ensures
            final(self).wf(),
            final(self).queues() == old(self).queues(),
            final(self).limit_spec() == old(self).limit_spec(),
            spec_cache_lookup(final(self).cache(), block) is None,
            forall|k: u32| k != block ==> spec_cache_lookup(final(self).cache(), k)
                == spec_cache_lookup(old(self).cache(), k),
    {
        let mut i: usize = 0;
        while i < self.prepared.len()
            invariant
                *self == *old(self),
                self.wf(),
                0 <= i <= self.prepared@.len(),
                forall|j: int| 0 <= j < i ==> self.prepared@[j].0 != block,
            decreases self.prepared@.len() - i,
        {
            if self.prepared[i].0 == block {
                let ghost pre = self.prepared@;
                let _ = self.prepared.remove(i);
                proof {
                    assert forall|a: int, b: int| 0 <= a < b < self.prepared@.len()
                        implies self.prepared@[a].0 != self.prepared@[b].0 by {
                        assert(self.prepared@[a] == if a < i { pre[a] } else { pre[a + 1] });
                        assert(self.prepared@[b] == if b < i { pre[b] } else { pre[b + 1] });
                    }
                    assert(forall|j: int| 0 <= j < self.prepared@.len()
                        ==> (#[trigger] self.prepared@[j]).0 != block);
                    lemma_cache_lookup_absent(self.prepared@, block);
                    assert forall|k: u32| k != block
                        implies spec_cache_lookup(self.prepared@, k)
                            == spec_cache_lookup(pre, k) by {
                        lemma_cache_lookup_other(pre, i as int, k);
                    }
                    assert(self.op_queues@ == old(self).op_queues@);
                    assert forall|q: int| 0 <= q < self.queues().len()
                        implies (#[trigger] self.queues()[q]).wf() by {
                        assert(old(self).queues()[q].wf());
                    }
                    assert(cache_unique(self.cache()));
                }
                return;
            }
            i = i + 1;
        }
        proof {
            lemma_cache_lookup_absent(self.prepared@, block);
        }
    }

    /// Stores freshly built witness data under its block number,
    /// replacing any stale entry.
    fn insert_prepared(&mut self, block: u32, pd: ProverData)
        requires
            old(self).wf(),
        ensures
            final(self).wf(),
            final(self).queues() == old(self).queues(),
            final(self).limit_spec() == old(self).limit_spec(),
            spec_cache_lookup(final(self).cache(), block) == Some(pd),
            forall|k: u32| k != block ==> spec_cache_lookup(final(self).cache(), k)
                == spec_cache_lookup(old(self).cache(), k),
    {
        self.clean_up(block);
        let ghost mid = self.prepared@;
        self.prepared.push((block, pd));
        proof {
            assert(forall|j: int| 0 <= j < mid.len() ==> (#[trigger] mid[j]).0 != block) by {
                if exists|j: int| 0 <= j < mid.len() && (#[trigger] mid[j]).0 == block {
                    let j = choose|j: int| 0 <= j < mid.len() && (#[trigger] mid[j]).0 == block;
                    lemma_cache_lookup_found(mid, j);
                }
            }
            lemma_cache_push_lookup(mid, block, pd);
        }
    }
}

/// What advancing one queue by one prepared block does to it.
pub open spec fn spec_prepare_advance(
    oldq: BlockSizedOperationsQueue,
    newq: BlockSizedOperationsQueue,
    st: Storage,
) -> bool {
    &&& newq.size_class() == oldq.size_class()
    &&& newq.last_loaded() == oldq.last_loaded()
    &&& if oldq.ops().len() == 0 {
        newq.ops() == oldq.ops()
    } else {
        newq.ops() == oldq.ops().drop_first() && spec_build_ok(st, oldq.ops()[0])
    }
}

/// No two queues wait on the same front block number.
pub open spec fn fronts_distinct(qs: Seq<BlockSizedOperationsQueue>) -> bool {
    forall|a: int, b: int| 0 <= a < b < qs.len()
        && qs[a].ops().len() > 0 && qs[b].ops().len() > 0
        ==> qs[a].ops()[0].block.block_number != qs[b].ops()[0].block.block_number
}

impl ProversDataPool {
    /// One refill pass: tops up every class's backlog from storage.
    pub fn take_next_commits_if_needed(&mut self, storage: &Storage) -> (r: Result<(), ReplayError>)
        requires
            old(self).wf(),
            storage.wf(),
        ensures
            r is Ok,
            final(self).wf(),
            final(self).cache() == old(self).cache(),
            final(self).limit_spec() == old(self).limit_spec(),
            final(self).queues().len() == old(self).queues().len(),
            forall|i: int| 0 <= i < old(self).queues().len()
                ==> spec_refill_post(
                    old(self).queues()[i],
                    #[trigger] final(self).queues()[i],
                    *storage,
                    old(self).limit_spec(),
                ),
    {
        let n = self.op_queues.len();
        let mut i: usize = 0;
        while i < n
            invariant
                storage.wf(),
                n == self.op_queues@.len(),
                self.op_queues@.len() == old(self).op_queues@.len(),
                0 <= i <= n,
                self.limit == old(self).limit,
                self.prepared@ == old(self).prepared@,
                cache_unique(self.prepared@),
                forall|j: int| 0 <= j < n ==> (#[trigger] self.op_queues@[j]).wf(),
                forall|j: int| 0 <= j < i ==> spec_refill_post(
                    old(self).op_queues@[j],
                    #[trigger] self.op_queues@[j],
                    *storage,
                    old(self).limit,
                ),
                forall|j: int| i <= j < n ==> #[trigger] self.op_queues@[j] == old(self).op_queues@[j],
            decreases n - i,
        {
            let ghost pre_queues = self.op_queues@;
            let mut q = self.op_queues.remove(i);
            let r = q.take_next_commits_if_needed(storage, self.limit);
            self.op_queues.insert(i, q);
            proof {
                assert(self.op_queues@ =~= pre_queues.update(i as int, q));
            }
            match r {
                Ok(()) => {},
                Err(e) => {
                    proof {
                        assert(false);
                    }
                    return Err(e);
                },
            }
            i = i + 1;
        }
        Ok(())
    }

    /// One prepare pass: pops at most one block per class, replays it, and
    /// caches the witness data under its block number. A failing replay
    /// aborts the pass; classes processed before it keep their progress.
    pub fn prepare_next(&mut self, storage: &Storage) -> (r: Result<(), ReplayError>)
        requires
            old(self).wf(),
            storage.wf(),
        ensures
            final(self).wf(),
            final(self).limit_spec() == old(self).limit_spec(),
            final(self).queues().len() == old(self).queues().len(),
            match r {
                Ok(()) => {
                    &&& forall|i: int| 0 <= i < old(self).queues().len()
                        ==> spec_prepare_advance(
                            old(self).queues()[i],
                            #[trigger] final(self).queues()[i],
                            *storage,
                        )
                    &&& forall|k: u32|
                        (forall|j: int| 0 <= j < old(self).queues().len()
                            && (#[trigger] old(self).queues()[j]).ops().len() > 0
                            ==> old(self).queues()[j].ops()[0].block.block_number != k)
                        ==> #[trigger] spec_cache_lookup(final(self).cache(), k)
                            == spec_cache_lookup(old(self).cache(), k)
                    &&& fronts_distinct(old(self).queues())
                        ==> forall|i: int| 0 <= i < old(self).queues().len()
                            && (#[trigger] old(self).queues()[i]).ops().len() > 0
                            ==> (spec_cache_lookup(
                                final(self).cache(),
                                old(self).queues()[i].ops()[0].block.block_number,
                            ) matches Some(pd)
                                && spec_build_post(*storage, old(self).queues()[i].ops()[0], Result::Ok(pd)))
                },
                Err(e) => exists|f: int| {
                    &&& 0 <= f < old(self).queues().len()
                    &&& (#[trigger] old(self).queues()[f]).ops().len() > 0
                    &&& !spec_build_ok(*storage, old(self).queues()[f].ops()[0])
                    &&& e == spec_build_err(*storage, old(self).queues()[f].ops()[0])
                    &&& final(self).queues()[f].ops() == old(self).queues()[f].ops().drop_first()
                    &&& forall|i: int| f < i < old(self).queues().len()
                        ==> #[trigger] final(self).queues()[i] == old(self).queues()[i]
                    &&& forall|i: int| 0 <= i < f
                        ==> spec_prepare_advance(
                            old(self).queues()[i],
                            #[trigger] final(self).queues()[i],
                            *storage,
                        )
                },
            },
    {
        let n = self.op_queues.len();
        let mut i: usize = 0;
        while i < n
            invariant
                storage.wf(),
                n == self.op_queues@.len(),
                self.op_queues@.len() == old(self).op_queues@.len(),
                0 <= i <= n,
                self.limit == old(self).limit,
                cache_unique(self.prepared@),
                forall|j: int| 0 <= j < n ==> (#[trigger] self.op_queues@[j]).wf(),
                forall|j: int| 0 <= j < i ==> spec_prepare_advance(
                    old(self).op_queues@[j],
                    #[trigger] self.op_queues@[j],
                    *storage,
                ),
                forall|j: int| i <= j < n ==> #[trigger] self.op_queues@[j] == old(self).op_queues@[j],
                forall|k: u32|
                    (forall|j: int| 0 <= j < i
                        && (#[trigger] old(self).op_queues@[j]).ops().len() > 0
                        ==> old(self).op_queues@[j].ops()[0].block.block_number != k)
                    ==> #[trigger] spec_cache_lookup(self.prepared@, k)
                        == spec_cache_lookup(old(self).prepared@, k),
                fronts_distinct(old(self).op_queues@)
                    ==> forall|j: int| 0 <= j < i
                        && (#[trigger] old(self).op_queues@[j]).ops().len() > 0
                        ==> (spec_cache_lookup(
                            self.prepared@,
                            old(self).op_queues@[j].ops()[0].block.block_number,
                        ) matches Some(pd)
                            && spec_build_post(*storage, old(self).op_queues@[j].ops()[0], Result::Ok(pd))),
            decreases n - i,
        {
            let ghost pre_queues = self.op_queues@;
            let ghost pre_cache = self.prepared@;
            let mut q = self.op_queues.remove(i);
            let r = q.prepare_next_if_any(storage);
            self.op_queues.insert(i, q);
            proof {
                assert(self.op_queues@ =~= pre_queues.update(i as int, q));
            }
            match r {
                Ok(Some((block_number, pd))) => {
                    self.insert_prepared(block_number, pd);
                    proof {
                        assert forall|k: u32|
                            (forall|j: int| 0 <= j < i + 1
                                && (#[trigger] old(self).op_queues@[j]).ops().len() > 0
                                ==> old(self).op_queues@[j].ops()[0].block.block_number != k)
                            implies #[trigger] spec_cache_lookup(self.prepared@, k)
                                == spec_cache_lookup(old(self).prepared@, k) by {
                            assert(old(self).op_queues@[i as int].ops().len() > 0);
                            assert(k != block_number);
                        }
                    }
                },
                Ok(None) => {},
                Err(e) => {
                    proof {
                        assert(old(self).op_queues@[i as int].ops().len() > 0);
                    }
                    return Err(e);
                },
            }
            i = i + 1;
        }
        Ok(())
    }
}

proof fn lemma_cache_push_lookup(s: Seq<(u32, ProverData)>, block: u32, pd: ProverData)
    requires
        cache_unique(s),
        forall|i: int| 0 <= i < s.len() ==> s[i].0 != block,
    ensures
        cache_unique(s.push((block, pd))),
        spec_cache_lookup(s.push((block, pd)), block) == Some(pd),
        forall|k: u32| k != block ==> spec_cache_lookup(s.push((block, pd)), k)
            == spec_cache_lookup(s, k),
    decreases s.len(),
{
    let t = s.push((block, pd));
    assert(cache_unique(t));
    assert(t[t.len() - 1].0 == block);
    lemma_cache_lookup_found(t, t.len() - 1);
    assert forall|k: u32| k != block
        implies spec_cache_lookup(t, k) == spec_cache_lookup(s, k) by {
        lemma_cache_lookup_other(t, t.len() - 1, k);
        assert(t.remove(t.len() - 1) =~= s);
    }
}

} // verus!
