use prover_pool::account::{default_account, Account};
use prover_pool::ops::{Block, DepositOp, FranklinOp, Operation};
use prover_pool::pool::{BlockSizedOperationsQueue, ProversDataPool};
use prover_pool::store::Storage;
use prover_pool::tree::AccountTree;

fn commit(block_number: u32, fee_account: u16, new_root_hash: u64, block_size: usize) -> Operation {
    Operation { block: Block { block_number, fee_account, new_root_hash, block_size } }
}

fn deposit_account(amount: u128) -> Account {
    let mut a = default_account();
    a.balances[0] = amount;
    a
}

fn prepared_storage() -> (Storage, u64) {
    let expected_root = {
        let mut t = AccountTree::new();
        t.insert(5, deposit_account(100));
        t.insert(0, default_account());
        t.root_hash()
    };
    let mut ops = vec![FranklinOp::Deposit(DepositOp { to: 5, token: 0, amount: 100 })];
    for _ in 0..9 {
        ops.push(FranklinOp::Noop);
    }
    let mut st = Storage::new();
    st.states = vec![(0, vec![])];
    st.block_ops = vec![(1, ops)];
    st.commits = vec![commit(1, 0, expected_root, 10)];
    (st, expected_root)
}

#[test]
fn refill_takes_only_eligible_blocks() {
    let mut st = Storage::new();
    st.commits = vec![
        commit(1, 0, 11, 10),
        commit(2, 0, 22, 10),
        commit(3, 0, 33, 10),
        commit(4, 0, 44, 6),
    ];
    let mut q = BlockSizedOperationsQueue::new(10);
    q.take_next_commits_if_needed(&st, 5).unwrap();
    assert_eq!(q.backlog_len(), 3);
    assert_eq!(q.last_loaded_block(), 3);
    // a second refill with no new storage data appends nothing
    q.take_next_commits_if_needed(&st, 5).unwrap();
    assert_eq!(q.backlog_len(), 3);
    assert_eq!(q.last_loaded_block(), 3);

    let mut q6 = BlockSizedOperationsQueue::new(6);
    q6.take_next_commits_if_needed(&st, 5).unwrap();
    assert_eq!(q6.backlog_len(), 1);
    assert_eq!(q6.last_loaded_block(), 4);
}

#[test]
fn refill_respects_the_limit() {
    let mut st = Storage::new();
    st.commits = vec![
        commit(1, 0, 11, 10),
        commit(2, 0, 22, 10),
        commit(3, 0, 33, 10),
    ];
    let mut q = BlockSizedOperationsQueue::new(10);
    q.take_next_commits_if_needed(&st, 2).unwrap();
    assert_eq!(q.backlog_len(), 2);
    assert_eq!(q.last_loaded_block(), 2);
}

#[test]
fn refill_cursor_is_monotonic() {
    let mut st = Storage::new();
    st.commits = vec![commit(1, 0, 11, 10), commit(2, 0, 22, 10)];
    let mut q = BlockSizedOperationsQueue::new(10);
    q.take_next_commits_if_needed(&st, 10).unwrap();
    let first = q.last_loaded_block();
    st.commits.push(commit(3, 0, 33, 10));
    q.take_next_commits_if_needed(&st, 10).unwrap();
    let second = q.last_loaded_block();
    assert!(first <= second);
    assert!(second <= 3);
}

#[test]
fn pool_prepares_reads_and_cleans_up() {
    let (st, expected_root) = prepared_storage();
    let mut pool = ProversDataPool::new(10, &vec![10usize]);
    assert!(pool.get(1).is_none());
    pool.take_next_commits_if_needed(&st).unwrap();
    pool.prepare_next(&st).unwrap();

    let first = pool.get(1).expect("block 1 should be prepared");
    assert_eq!(first.new_root, expected_root);
    // reading twice returns identical data
    assert_eq!(pool.get(1).unwrap(), pool.get(1).unwrap());

    pool.clean_up(1);
    assert!(pool.get(1).is_none());
}

#[test]
fn prepare_next_advances_one_block_per_class() {
    let (mut st, _) = prepared_storage();
    // a second committed block of the same class, not yet prepared
    st.states.push((1, vec![(5, deposit_account(100)), (0, default_account())]));
    st.block_ops.push((2, vec![FranklinOp::Noop]));
    let second_root = {
        let mut t = AccountTree::new();
        t.insert(5, deposit_account(100));
        t.insert(0, default_account());
        t.root_hash()
    };
    st.commits.push(commit(2, 0, second_root, 10));

    let mut pool = ProversDataPool::new(10, &vec![10usize]);
    pool.take_next_commits_if_needed(&st).unwrap();
    pool.prepare_next(&st).unwrap();
    assert!(pool.get(1).is_some());
    assert!(pool.get(2).is_none());
    pool.prepare_next(&st).unwrap();
    assert!(pool.get(2).is_some());
    // chain continuity: block 2 replays from block 1's committed state,
    // so its old root is block 1's new root
    assert_eq!(pool.get(2).unwrap().old_root, pool.get(1).unwrap().new_root);
}
