//! The storage collaborator, modelled at its interface: committed blocks
//! awaiting proof, full account snapshots per block, and per-block
//! operation lists. The pool and the replay engine only ever see these
//! three queries.

use vstd::prelude::*;
use crate::account::{Account, AccountModel, account_model_wf, copy_balances};
use crate::ops::{FranklinOp, Operation};
use crate::tree::unique_keys;

verus! {

/// In-memory committed state: what the ledger backend answers with.
pub struct Storage {
    /// Committed-but-unproven blocks, in strictly ascending block-number order.
    pub commits: Vec<Operation>,
    /// Full account snapshots: (block number, accounts as of that block).
    pub states: Vec<(u32, Vec<(u16, Account)>)>,
    /// The ordered ledger operations composing each block.
    pub block_ops: Vec<(u32, Vec<FranklinOp>)>,
}

impl Storage {
    /// Commits ascend strictly by block number, and every snapshot holds
    /// well-formed accounts under unique ids.
    pub open spec fn wf(&self) -> bool {
        &&& forall|i: int, j: int| 0 <= i < j < self.commits@.len()
            ==> self.commits@[i].block.block_number < self.commits@[j].block.block_number
        &&& forall|i: int| 0 <= i < self.states@.len()
            ==> unique_keys(#[trigger] self.states@[i].1@)
        &&& forall|i: int, j: int| 0 <= i < self.states@.len()
            && 0 <= j < self.states@[i].1@.len()
            ==> account_model_wf(#[trigger] self.states@[i].1@[j].1@)
    }

    /// An empty storage.
    pub fn new() -> (r: Storage)
        ensures
            r.wf(),
            r.commits@ == Seq::<Operation>::empty(),
            r.states@.len() == 0,
            r.block_ops@.len() == 0,
    {
        Storage { commits: Vec::new(), states: Vec::new(), block_ops: Vec::new() }
    }
}

/// The committed blocks of one size class strictly after a block number.
pub open spec fn spec_eligible(commits: Seq<Operation>, block_size: usize, after: u32) -> Seq<Operation>
    decreases commits.len(),
{
    if commits.len() == 0 {
        Seq::empty()
    } else {
        let rest = spec_eligible(commits.drop_last(), block_size, after);
        if commits.last().block.block_size == block_size && commits.last().block.block_number > after {
            rest.push(commits.last())
        } else {
            rest
        }
    }
}

/// What a refill query answers: the eligible blocks, ascending, truncated
/// to the first `limit` (none for a non-positive limit).
pub open spec fn spec_load_commits(
    commits: Seq<Operation>,
    block_size: usize,
    after: u32,
    limit: i64,
) -> Seq<Operation> {
    let f = spec_eligible(commits, block_size, after);
    let lim: nat = if limit <= 0 { 0 } else { limit as nat };
    if f.len() <= lim { f } else { f.take(lim as int) }
}

/// The snapshot stored for a block number, if any (first match).
pub open spec fn spec_find_state(s: Seq<(u32, Vec<(u16, Account)>)>, bn: u32) -> Option<Seq<(u16, Account)>>
    decreases s.len(),
{
    if s.len() == 0 {
        None
    } else if s.first().0 == bn {
        Some(s.first().1@)
    } else {
        spec_find_state(s.drop_first(), bn)
    }
}

/// The operation list stored for a block number, if any (first match).
pub open spec fn spec_find_ops(s: Seq<(u32, Vec<FranklinOp>)>, bn: u32) -> Option<Seq<FranklinOp>>
    decreases s.len(),
{
    if s.len() == 0 {
        None
    } else if s.first().0 == bn {
        Some(s.first().1@)
    } else {
        spec_find_ops(s.drop_first(), bn)
    }
}

/// The id/state view of a snapshot's entry list.
pub open spec fn accounts_view(s: Seq<(u16, Account)>) -> Seq<(u16, AccountModel)> {
    s.map_values(|p: (u16, Account)| (p.0, p.1@))
}

impl Storage {
    /// Committed-but-unproven blocks of the given size class, strictly
    /// after `after`, ascending, at most `limit` of them.
    pub fn load_unverified_commits_after_block(&self, block_size: usize, after: u32, limit: i64) -> (r: Vec<Operation>)
        ensures
            r@ == spec_load_commits(self.commits@, block_size, after, limit),
    {
        let mut r: Vec<Operation> = Vec::new();
        let mut i: usize = 0;
        while i < self.commits.len()
            invariant
                0 <= i <= self.commits@.len(),
                r@ == spec_eligible(self.commits@.take(i as int), block_size, after),
            decreases self.commits@.len() - i,
        {
            let op = self.commits[i];
            proof {
                assert(self.commits@.take(i + 1).drop_last() =~= self.commits@.take(i as int));
                assert(self.commits@.take(i + 1).last() == self.commits@[i as int]);
            }
            if op.block.block_size == block_size && op.block.block_number > after {
                r.push(op);
            }
            i = i + 1;
        }
        proof {
            assert(self.commits@.take(self.commits@.len() as int) =~= self.commits@);
            assert(r@ =~= spec_eligible(self.commits@, block_size, after).take(r@.len() as int));
        }
        let lim: u64 = if limit <= 0 { 0 } else { limit as u64 };
        while r.len() as u64 > lim
            invariant
                r@.len() <= spec_eligible(self.commits@, block_size, after).len(),
                r@ == spec_eligible(self.commits@, block_size, after).take(r@.len() as int),
                r@.len() >= if spec_eligible(self.commits@, block_size, after).len() <= lim as nat {
                    spec_eligible(self.commits@, block_size, after).len()
                } else {
                    lim as nat
                },
            decreases r@.len(),
        {
            let ghost pre = r@;
            r.pop();
            proof {
                assert(pre.take(pre.len() as int) =~= pre);
                assert(pre.subrange(0, pre.len() - 1)
                    =~= spec_eligible(self.commits@, block_size, after).take(pre.len() - 1));
            }
        }
        proof {
            let f = spec_eligible(self.commits@, block_size, after);
            let lim_n: nat = if limit <= 0 { 0 } else { limit as nat };
            if f.len() <= lim_n {
                assert(r@ =~= f);
            } else {
                assert(r@.len() == lim_n);
            }
        }
        r
    }

    /// The full account snapshot as of a block number, or nothing if that
    /// block's state was never recorded.
    pub fn load_committed_state(&self, at_block: u32) -> (r: Option<Vec<(u16, Account)>>)
        requires
            self.wf(),
        ensures
            match r {
                Some(v) => {
                    &&& spec_find_state(self.states@, at_block) matches Some(s)
                        && accounts_view(v@) == accounts_view(s)
                    &&& unique_keys(v@)
                    &&& forall|j: int| 0 <= j < v@.len() ==> account_model_wf(#[trigger] v@[j].1@)
                },
                None => spec_find_state(self.states@, at_block) is None,
            },
    {
        proof {
            assert(self.states@.skip(0) =~= self.states@);
        }
        let mut i: usize = 0;
        while i < self.states.len()
            invariant
                self.wf(),
                0 <= i <= self.states@.len(),
                spec_find_state(self.states@, at_block) == spec_find_state(self.states@.skip(i as int), at_block),
            decreases self.states@.len() - i,
        {
            proof {
                assert(self.states@.skip(i as int).first() == self.states@[i as int]);
                assert(self.states@.skip(i as int).drop_first() =~= self.states@.skip(i + 1));
            }
            if self.states[i].0 == at_block {
                let src = &self.states[i].1;
                let mut out: Vec<(u16, Account)> = Vec::new();
                let mut j: usize = 0;
                while j < src.len()
                    invariant
                        0 <= j <= src@.len(),
                        forall|k: int| 0 <= k < src@.len() ==> account_model_wf(#[trigger] src@[k].1@),
                        unique_keys(src@),
                        out@.len() == j,
                        forall|k: int| 0 <= k < j ==> (#[trigger] out@[k]).0 == src@[k].0,
                        forall|k: int| 0 <= k < j ==> (#[trigger] out@[k]).1@ == src@[k].1@,
                    decreases src@.len() - j,
                {
                    let id = src[j].0;
                    let a = &src[j].1;
                    let copy = Account {
                        balances: copy_balances(&a.balances),
                        nonce: a.nonce,
                        pub_key_hash: a.pub_key_hash,
                    };
                    proof {
                        assert(copy@ == src@[j as int].1@);
                    }
                    out.push((id, copy));
                    proof {
                        assert(out@[j as int].0 == src@[j as int].0);
                        assert(out@[j as int].1@ == src@[j as int].1@);
                    }
                    j = j + 1;
                }
                proof {
                    assert(accounts_view(out@) =~= accounts_view(src@));
                }
                return Some(out);
            }
            i = i + 1;
        }
        proof {
            assert(self.states@.skip(self.states@.len() as int) =~= Seq::<(u32, Vec<(u16, Account)>)>::empty());
        }
        None
    }

    /// The ordered ledger operations composing a block, or nothing if the
    /// block is unknown.
    pub fn get_block_operations(&self, block_number: u32) -> (r: Option<&Vec<FranklinOp>>)
        ensures
            match r {
                Some(v) => spec_find_ops(self.block_ops@, block_number) == Some(v@),
                None => spec_find_ops(self.block_ops@, block_number) is None,
            },
    {
        proof {
            assert(self.block_ops@.skip(0) =~= self.block_ops@);
        }
        let mut i: usize = 0;
        while i < self.block_ops.len()
            invariant
                0 <= i <= self.block_ops@.len(),
                spec_find_ops(self.block_ops@, block_number)
                    == spec_find_ops(self.block_ops@.skip(i as int), block_number),
            decreases self.block_ops@.len() - i,
        {
            proof {
                assert(self.block_ops@.skip(i as int).first() == self.block_ops@[i as int]);
                assert(self.block_ops@.skip(i as int).drop_first() =~= self.block_ops@.skip(i + 1));
            }
            if self.block_ops[i].0 == block_number {
                return Some(&self.block_ops[i].1);
            }
            i = i + 1;
        }
        proof {
            assert(self.block_ops@.skip(self.block_ops@.len() as int) =~= Seq::<(u32, Vec<FranklinOp>)>::empty());
        }
        None
    }
}

} // verus!
