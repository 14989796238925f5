use prover_pool::account::{default_account, Account};
use prover_pool::hashing::combine;
use prover_pool::ops::{
    Block, ChangePubKeyOp, CircuitOpKind, CloseOp, DepositOp, FranklinOp, FullExitOp, Operation,
    ReplayError, TransferOp, TxSignature, WithdrawOp,
};
use prover_pool::replay::build_prover_data;
use prover_pool::store::Storage;
use prover_pool::tree::AccountTree;

fn account_with(balances: &[(usize, u128)], nonce: u32, pub_key_hash: u64) -> Account {
    let mut a = default_account();
    for &(i, v) in balances {
        a.balances[i] = v;
    }
    a.nonce = nonce;
    a.pub_key_hash = pub_key_hash;
    a
}

fn root_of(entries: Vec<(u16, Account)>) -> u64 {
    let mut t = AccountTree::new();
    for (id, a) in entries {
        t.insert(id, a);
    }
    t.root_hash()
}

fn good_signature() -> TxSignature {
    TxSignature { signature: vec![0u8; 64], pub_key: vec![0u8; 32] }
}

fn commit(block_number: u32, fee_account: u16, new_root_hash: u64, block_size: usize) -> Operation {
    Operation { block: Block { block_number, fee_account, new_root_hash, block_size } }
}

fn deposit_block_storage(new_root: u64) -> Storage {
    let mut ops = vec![FranklinOp::Deposit(DepositOp { to: 5, token: 0, amount: 100 })];
    for _ in 0..9 {
        ops.push(FranklinOp::Noop);
    }
    let mut st = Storage::new();
    st.states = vec![(0, vec![])];
    st.block_ops = vec![(1, ops)];
    st.commits = vec![commit(1, 0, new_root, 10)];
    st
}

#[test]
fn deposit_block_end_to_end() {
    let expected_root = root_of(vec![
        (5, account_with(&[(0, 100)], 0, 0)),
        (0, default_account()),
    ]);
    let st = deposit_block_storage(expected_root);
    let op = commit(1, 0, expected_root, 10);
    let pd = build_prover_data(&st, &op).unwrap();
    assert_eq!(pd.operations.len(), 10);
    assert_eq!(pd.old_root, AccountTree::new().root_hash());
    assert_eq!(pd.new_root, expected_root);
    assert_eq!(pd.validator_address, 0);
    assert!(matches!(pd.operations[0].kind, CircuitOpKind::Deposit));
    for k in 1..10 {
        assert!(matches!(pd.operations[k].kind, CircuitOpKind::Noop));
    }
}

#[test]
fn replay_is_deterministic() {
    let expected_root = root_of(vec![
        (5, account_with(&[(0, 100)], 0, 0)),
        (0, default_account()),
    ]);
    let st = deposit_block_storage(expected_root);
    let op = commit(1, 0, expected_root, 10);
    let pd1 = build_prover_data(&st, &op).unwrap();
    let pd2 = build_prover_data(&st, &op).unwrap();
    assert_eq!(pd1, pd2);
}

#[test]
fn root_mismatch_is_reported() {
    let expected_root = root_of(vec![
        (5, account_with(&[(0, 100)], 0, 0)),
        (0, default_account()),
    ]);
    let st = deposit_block_storage(expected_root.wrapping_add(1));
    let op = commit(1, 0, expected_root.wrapping_add(1), 10);
    assert_eq!(build_prover_data(&st, &op).unwrap_err(), ReplayError::RootMismatch);
}

#[test]
fn missing_snapshot_is_a_storage_error() {
    let mut st = Storage::new();
    st.block_ops = vec![(1, vec![FranklinOp::Noop])];
    let op = commit(1, 0, 0, 4);
    assert_eq!(build_prover_data(&st, &op).unwrap_err(), ReplayError::StorageRead);
}

#[test]
fn missing_operations_are_a_storage_error() {
    let mut st = Storage::new();
    st.states = vec![(0, vec![])];
    let op = commit(1, 0, 0, 4);
    assert_eq!(build_prover_data(&st, &op).unwrap_err(), ReplayError::StorageRead);
}

#[test]
fn block_zero_has_no_predecessor_snapshot() {
    let st = Storage::new();
    let op = commit(0, 0, 0, 4);
    assert_eq!(build_prover_data(&st, &op).unwrap_err(), ReplayError::StorageRead);
}

#[test]
fn oversized_block_is_rejected() {
    let st = Storage::new();
    let op = commit(1, 0, 0, 2_000_000);
    assert_eq!(build_prover_data(&st, &op).unwrap_err(), ReplayError::UnsupportedBlockSize);
}

#[test]
fn malformed_signature_fails_unpacking() {
    let mut st = Storage::new();
    st.states = vec![(0, vec![(5, account_with(&[(1, 1000)], 0, 0))])];
    let bad = TxSignature { signature: vec![0u8; 10], pub_key: vec![0u8; 32] };
    st.block_ops = vec![(1, vec![FranklinOp::Transfer(TransferOp {
        from: 5, to: 6, token: 1, amount: 200, fee: 50, signature: bad,
    })])];
    let op = commit(1, 0, 0, 4);
    assert_eq!(build_prover_data(&st, &op).unwrap_err(), ReplayError::SignatureUnpack);
}

#[test]
fn malformed_signer_key_fails_preparation() {
    let mut st = Storage::new();
    st.states = vec![(0, vec![(5, account_with(&[(1, 1000)], 0, 0))])];
    let bad = TxSignature { signature: vec![0u8; 64], pub_key: vec![0u8; 10] };
    st.block_ops = vec![(1, vec![FranklinOp::Transfer(TransferOp {
        from: 5, to: 6, token: 1, amount: 200, fee: 50, signature: bad,
    })])];
    let op = commit(1, 0, 0, 4);
    assert_eq!(build_prover_data(&st, &op).unwrap_err(), ReplayError::SignaturePrep);
}

#[test]
fn overfull_block_fails_the_shape_check() {
    let mut st = Storage::new();
    st.states = vec![(0, vec![])];
    st.block_ops = vec![(1, vec![
        FranklinOp::Deposit(DepositOp { to: 1, token: 0, amount: 1 }),
        FranklinOp::Deposit(DepositOp { to: 2, token: 0, amount: 1 }),
    ])];
    let op = commit(1, 0, 0, 1);
    assert_eq!(build_prover_data(&st, &op).unwrap_err(), ReplayError::WitnessShape);
}

#[test]
fn fees_settle_into_the_fee_account() {
    // transfer 5 -> 6 of 200 with fee 50, withdraw 100 + fee 25 from 6,
    // close 7 with fee 5; all in token 1, fee account 0.
    let expected_root = root_of(vec![
        (5, account_with(&[(1, 750)], 1, 0)),
        (6, account_with(&[(1, 75)], 1, 0)),
        (7, default_account()),
        (0, account_with(&[(1, 80)], 0, 0)),
    ]);
    let mut st = Storage::new();
    st.states = vec![(0, vec![(5, account_with(&[(1, 1000)], 0, 0))])];
    st.block_ops = vec![(1, vec![
        FranklinOp::Transfer(TransferOp {
            from: 5, to: 6, token: 1, amount: 200, fee: 50, signature: good_signature(),
        }),
        FranklinOp::Withdraw(WithdrawOp {
            account: 6, token: 1, amount: 100, fee: 25, signature: good_signature(),
        }),
        FranklinOp::Close(CloseOp { account: 7, token: 1, fee: 5, signature: good_signature() }),
    ])];
    let op = commit(1, 0, expected_root, 5);
    let pd = build_prover_data(&st, &op).unwrap();
    assert_eq!(pd.new_root, expected_root);
    assert_eq!(pd.validator_balances[1], 80);
    assert_eq!(pd.operations.len(), 5);
    assert!(matches!(pd.operations[0].kind, CircuitOpKind::Transfer));
    assert!(matches!(pd.operations[1].kind, CircuitOpKind::Withdraw));
    assert!(matches!(pd.operations[2].kind, CircuitOpKind::Close));
}

#[test]
fn full_exit_and_key_change_replay() {
    let expected_root = root_of(vec![
        (5, account_with(&[], 0, 0)),
        (6, account_with(&[], 1, 99)),
        (0, default_account()),
    ]);
    let mut st = Storage::new();
    st.states = vec![(0, vec![
        (5, account_with(&[(0, 100)], 0, 0)),
        (6, default_account()),
    ])];
    st.block_ops = vec![(1, vec![
        FranklinOp::FullExit(FullExitOp { account: 5, token: 0, withdraw_amount: Some(100) }),
        FranklinOp::ChangePubKeyOffchain(ChangePubKeyOp { account: 6, new_pub_key_hash: 99 }),
    ])];
    let op = commit(1, 0, expected_root, 4);
    let pd = build_prover_data(&st, &op).unwrap();
    assert_eq!(pd.new_root, expected_root);
    assert_eq!(pd.operations.len(), 4);
    assert!(matches!(pd.operations[0].kind, CircuitOpKind::FullExit));
    assert!(matches!(pd.operations[1].kind, CircuitOpKind::ChangePubKey));
}

#[test]
fn combine_matches_its_formula() {
    let expect = ((2u128 * 1_000_003 + 3u128 * 998_244_353 + 0x5851_f42d)
        % 0x1fff_ffff_ffff_ffffu128) as u64;
    assert_eq!(combine(2, 3), expect);
}

#[test]
fn deposit_encoding_is_big_endian() {
    let op = FranklinOp::Deposit(DepositOp { to: 5, token: 7, amount: 100 });
    let bytes = prover_pool::ops::encode_op(&op);
    let mut expect = vec![1u8, 0, 5, 7];
    expect.extend_from_slice(&[0u8; 15]);
    expect.push(100);
    assert_eq!(bytes, expect);
}
