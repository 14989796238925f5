//! The state replay engine: applies a committed block's ledger operations
//! to the account tree, accumulates circuit operations and public data,
//! settles fees, and checks the replayed root against the committed one.

use vstd::prelude::*;
use crate::account::{AccountModel, account_model_wf, spec_default_account, default_account, TOTAL_TOKENS};
use crate::hashing::{spec_combine, spec_fold_bytes, combine, fold_bytes};
use crate::ops::{
    ReplayError, FranklinOp, CollectedFee, Operation, CircuitOpKind, CircuitOp,
    AccountWitness, CHUNK_BYTES, SIG_DATA_SEED, OP_SEED,
    spec_chunk, spec_args_hash, spec_op_error, spec_op_fee, spec_chunks_of, spec_kind_of,
    lemma_encode_len, encode_op, chunk_pubdata, pack_signature, prepare_sig_data,
};
use crate::store::{Storage, spec_find_state, spec_find_ops, accounts_view};
use crate::tree::{AccountTree, spec_get_or_default, spec_root, spec_audit_path};
use crate::witness::{
    WitnessBuilder, spec_settle_map, spec_settle_account, spec_commitment,
    spec_pad_ops, spec_pad_bytes, MAX_BLOCK_SIZE,
};

verus! {

/// The everything-the-prover-needs output of one block replay.
#[derive(Debug, PartialEq)]
pub struct ProverData {
    pub public_data_commitment: u64,
    pub old_root: u64,
    pub new_root: u64,
    pub validator_address: u64,
    pub operations: Vec<CircuitOp>,
    pub validator_balances: Vec<u128>,
    pub validator_audit_path: Vec<u64>,
    pub validator_account: AccountWitness,
}

/// An account credited: the token balance grows (wrapping), nothing else
/// changes. Crediting an absent account creates it fresh first.
pub open spec fn spec_credit(a: AccountModel, token: u8, amount: u128) -> AccountModel {
    AccountModel {
        balances: a.balances.update(
            token as int,
            vstd::wrapping::u128_specs::wrapping_add(a.balances[token as int], amount),
        ),
        nonce: a.nonce,
        pub_key_hash: a.pub_key_hash,
    }
}

/// An account debited by an amount and a fee, with its nonce bumped.
pub open spec fn spec_debit(a: AccountModel, token: u8, amount: u128, fee: u128) -> AccountModel {
    AccountModel {
        balances: a.balances.update(
            token as int,
            vstd::wrapping::u128_specs::wrapping_sub(
                vstd::wrapping::u128_specs::wrapping_sub(a.balances[token as int], amount),
                fee,
            ),
        ),
        nonce: vstd::wrapping::u32_specs::wrapping_add(a.nonce, 1),
        pub_key_hash: a.pub_key_hash,
    }
}

/// An account's token balance withdrawn in full.
pub open spec fn spec_zero_token(a: AccountModel, token: u8) -> AccountModel {
    AccountModel {
        balances: a.balances.update(token as int, 0u128),
        nonce: a.nonce,
        pub_key_hash: a.pub_key_hash,
    }
}

/// An account's key hash replaced, with its nonce bumped.
pub open spec fn spec_set_key(a: AccountModel, new_pub_key_hash: u64) -> AccountModel {
    AccountModel {
        balances: a.balances,
        nonce: vstd::wrapping::u32_specs::wrapping_add(a.nonce, 1),
        pub_key_hash: new_pub_key_hash,
    }
}

/// How one ledger operation transforms the account map.
pub open spec fn spec_apply_map(m: Map<u16, AccountModel>, op: FranklinOp) -> Map<u16, AccountModel> {
    match op {
        FranklinOp::Deposit(d) => m.insert(
            d.to,
            spec_credit(spec_get_or_default(m, d.to), d.token, d.amount),
        ),
        FranklinOp::Transfer(t) => {
            let m1 = m.insert(t.from, spec_debit(spec_get_or_default(m, t.from), t.token, t.amount, t.fee));
            m1.insert(t.to, spec_credit(spec_get_or_default(m1, t.to), t.token, t.amount))
        },
        FranklinOp::TransferToNew(t) => {
            let m1 = m.insert(t.from, spec_debit(spec_get_or_default(m, t.from), t.token, t.amount, t.fee));
            m1.insert(t.to, spec_credit(spec_get_or_default(m1, t.to), t.token, t.amount))
        },
        FranklinOp::Withdraw(w) => m.insert(
            w.account,
            spec_debit(spec_get_or_default(m, w.account), w.token, w.amount, w.fee),
        ),
        FranklinOp::Close(c) => m.insert(c.account, spec_default_account()),
        FranklinOp::FullExit(f) => match f.withdraw_amount {
            Some(_) => m.insert(f.account, spec_zero_token(spec_get_or_default(m, f.account), f.token)),
            None => m,
        },
        FranklinOp::ChangePubKeyOffchain(c) => m.insert(
            c.account,
            spec_set_key(spec_get_or_default(m, c.account), c.new_pub_key_hash),
        ),
        FranklinOp::Noop => m,
    }
}

/// The circuit operation slots one ledger operation emits: none for a
/// no-op, one otherwise, carrying the roots around the operation and the
/// argument digest.
pub open spec fn spec_circuit_ops(m: Map<u16, AccountModel>, op: FranklinOp) -> Seq<CircuitOp> {
    match op {
        FranklinOp::Noop => Seq::empty(),
        _ => seq![
            CircuitOp {
                kind: spec_kind_of(op),
                root_before: spec_root(m),
                root_after: spec_root(spec_apply_map(m, op)),
                args_hash: spec_args_hash(op),
            }
        ],
    }
}

/// The public-data bytes one ledger operation emits.
pub open spec fn spec_op_pubdata(op: FranklinOp) -> Seq<u8> {
    match op {
        FranklinOp::Noop => Seq::empty(),
        _ => spec_chunk(op),
    }
}

/// The account map after replaying a whole operation list.
pub open spec fn spec_replay_map(m: Map<u16, AccountModel>, ops: Seq<FranklinOp>) -> Map<u16, AccountModel>
    decreases ops.len(),
{
    if ops.len() == 0 {
        m
    } else {
        spec_replay_map(spec_apply_map(m, ops.first()), ops.drop_first())
    }
}

/// All circuit operation slots a list emits, in order.
pub open spec fn spec_replay_ops(m: Map<u16, AccountModel>, ops: Seq<FranklinOp>) -> Seq<CircuitOp>
    decreases ops.len(),
{
    if ops.len() == 0 {
        Seq::empty()
    } else {
        spec_circuit_ops(m, ops.first()) + spec_replay_ops(spec_apply_map(m, ops.first()), ops.drop_first())
    }
}

/// The concatenated public-data stream a list emits.
pub open spec fn spec_replay_pubdata(ops: Seq<FranklinOp>) -> Seq<u8>
    decreases ops.len(),
{
    if ops.len() == 0 {
        Seq::empty()
    } else {
        spec_op_pubdata(ops.first()) + spec_replay_pubdata(ops.drop_first())
    }
}

/// The fees a list collects, in operation order.
pub open spec fn spec_replay_fees(ops: Seq<FranklinOp>) -> Seq<CollectedFee>
    decreases ops.len(),
{
    if ops.len() == 0 {
        Seq::empty()
    } else {
        match spec_op_fee(ops.first()) {
            Some(f) => seq![f] + spec_replay_fees(ops.drop_first()),
            None => spec_replay_fees(ops.drop_first()),
        }
    }
}

/// The first error a list's operations report, if any.
pub open spec fn spec_first_op_error(ops: Seq<FranklinOp>) -> Option<ReplayError>
    decreases ops.len(),
{
    if ops.len() == 0 {
        None
    } else {
        match spec_op_error(ops.first()) {
            Some(e) => Some(e),
            None => spec_first_op_error(ops.drop_first()),
        }
    }
}

/// How many circuit slots a list occupies.
pub open spec fn spec_total_chunks(ops: Seq<FranklinOp>) -> nat
    decreases ops.len(),
{
    if ops.len() == 0 {
        0
    } else {
        spec_chunks_of(ops.first()) + spec_total_chunks(ops.drop_first())
    }
}

/// The slot count and public-data length of a replay agree: one slot and
/// 64 bytes per non-noop operation.
pub proof fn lemma_replay_lengths(m: Map<u16, AccountModel>, ops: Seq<FranklinOp>)
    ensures
        spec_replay_ops(m, ops).len() == spec_total_chunks(ops),
        spec_replay_pubdata(ops).len() == CHUNK_BYTES * spec_total_chunks(ops),
    decreases ops.len(),
{
    if ops.len() > 0 {
        lemma_replay_lengths(spec_apply_map(m, ops.first()), ops.drop_first());
        match ops.first() {
            FranklinOp::Noop => {},
            _ => {
                lemma_encode_len(ops.first());
            },
        }
    }
}

fn credit_account(tree: &mut AccountTree, id: u16, token: u8, amount: u128)
    requires
        old(tree).wf(),
    ensures
        final(tree).wf(),
        final(tree).as_map() == old(tree).as_map().insert(
            id,
            spec_credit(spec_get_or_default(old(tree).as_map(), id), token, amount),
        ),
{
    let mut a = tree.take_or_default(id);
    let b = a.balances[token as usize];
    a.balances[token as usize] = b.wrapping_add(amount);
    tree.insert(id, a);
    proof {
        assert(final(tree).as_map() =~= old(tree).as_map().insert(
            id,
            spec_credit(spec_get_or_default(old(tree).as_map(), id), token, amount),
        ));
    }
}

fn debit_account(tree: &mut AccountTree, id: u16, token: u8, amount: u128, fee: u128)
    requires
        old(tree).wf(),
    ensures
        final(tree).wf(),
        final(tree).as_map() == old(tree).as_map().insert(
            id,
            spec_debit(spec_get_or_default(old(tree).as_map(), id), token, amount, fee),
        ),
{
    let mut a = tree.take_or_default(id);
    let b = a.balances[token as usize];
    a.balances[token as usize] = b.wrapping_sub(amount).wrapping_sub(fee);
    a.nonce = a.nonce.wrapping_add(1);
    tree.insert(id, a);
    proof {
        assert(final(tree).as_map() =~= old(tree).as_map().insert(
            id,
            spec_debit(spec_get_or_default(old(tree).as_map(), id), token, amount, fee),
        ));
    }
}

fn zero_token_account(tree: &mut AccountTree, id: u16, token: u8)
    requires
        old(tree).wf(),
    ensures
        final(tree).wf(),
        final(tree).as_map() == old(tree).as_map().insert(
            id,
            spec_zero_token(spec_get_or_default(old(tree).as_map(), id), token),
        ),
{
    let mut a = tree.take_or_default(id);
    a.balances[token as usize] = 0;
    tree.insert(id, a);
    proof {
        assert(final(tree).as_map() =~= old(tree).as_map().insert(
            id,
            spec_zero_token(spec_get_or_default(old(tree).as_map(), id), token),
        ));
    }
}

fn set_key_account(tree: &mut AccountTree, id: u16, new_pub_key_hash: u64)
    requires
        old(tree).wf(),
    ensures
        final(tree).wf(),
        final(tree).as_map() == old(tree).as_map().insert(
            id,
            spec_set_key(spec_get_or_default(old(tree).as_map(), id), new_pub_key_hash),
        ),
{
    let mut a = tree.take_or_default(id);
    a.pub_key_hash = new_pub_key_hash;
    a.nonce = a.nonce.wrapping_add(1);
    tree.insert(id, a);
    proof {
        assert(final(tree).as_map() =~= old(tree).as_map().insert(
            id,
            spec_set_key(spec_get_or_default(old(tree).as_map(), id), new_pub_key_hash),
        ));
    }
}

/// Computes a signed operation's argument digest from its parts.
fn sig_args_hash(m1: u64, m2: u64, m3: u64, sig_data: &Vec<u8>, key_digest: u64) -> (r: u64)
    ensures
        r == spec_combine(
            spec_combine(spec_combine(m1, m2), m3),
            spec_combine(spec_fold_bytes(SIG_DATA_SEED, sig_data@), key_digest),
        ),
{
    let sd = fold_bytes(SIG_DATA_SEED, sig_data);
    combine(combine(combine(m1, m2), m3), combine(sd, key_digest))
}

/// Applies one ledger operation to the tree and derives its circuit slot,
/// public-data chunk, and collected fee. The tree mutation happens before
/// the signature checks, as replay always discards the tree on failure.
fn apply_ledger_op(tree: &mut AccountTree, op: &FranklinOp) -> (r: Result<
    (Option<CircuitOp>, Vec<u8>, Option<CollectedFee>),
    ReplayError,
>)
    requires
        old(tree).wf(),
    ensures
        final(tree).wf(),
        final(tree).as_map() == spec_apply_map(old(tree).as_map(), *op),
        match r {
            Ok((cop, pd, fee)) => {
                &&& spec_op_error(*op) is None
                &&& match cop {
                    Some(c) => spec_circuit_ops(old(tree).as_map(), *op) == seq![c],
                    None => spec_circuit_ops(old(tree).as_map(), *op) == Seq::<CircuitOp>::empty(),
                }
                &&& pd@ == spec_op_pubdata(*op)
                &&& fee == spec_op_fee(*op)
            },
            Err(e) => spec_op_error(*op) == Some(e),
        },
{
    match op {
        FranklinOp::Noop => Ok((None, Vec::new(), None)),
        FranklinOp::Deposit(d) => {
            let root_before = tree.root_hash();
            credit_account(tree, d.to, d.token, d.amount);
            let root_after = tree.root_hash();
            let tx_bytes = encode_op(op);
            let args_hash = fold_bytes(OP_SEED, &tx_bytes);
            let cop = CircuitOp { kind: CircuitOpKind::Deposit, root_before, root_after, args_hash };
            Ok((Some(cop), chunk_pubdata(op), None))
        },
        FranklinOp::FullExit(f) => {
            let root_before = tree.root_hash();
            match f.withdraw_amount {
                Some(_) => zero_token_account(tree, f.account, f.token),
                None => {},
            }
            let root_after = tree.root_hash();
            let tx_bytes = encode_op(op);
            let args_hash = fold_bytes(OP_SEED, &tx_bytes);
            let cop = CircuitOp { kind: CircuitOpKind::FullExit, root_before, root_after, args_hash };
            Ok((Some(cop), chunk_pubdata(op), None))
        },
        FranklinOp::ChangePubKeyOffchain(c) => {
            let root_before = tree.root_hash();
            set_key_account(tree, c.account, c.new_pub_key_hash);
            let root_after = tree.root_hash();
            let tx_bytes = encode_op(op);
            let args_hash = fold_bytes(OP_SEED, &tx_bytes);
            let cop = CircuitOp { kind: CircuitOpKind::ChangePubKey, root_before, root_after, args_hash };
            Ok((Some(cop), chunk_pubdata(op), None))
        },
        FranklinOp::Transfer(t) => {
            let root_before = tree.root_hash();
            debit_account(tree, t.from, t.token, t.amount, t.fee);
            credit_account(tree, t.to, t.token, t.amount);
            let root_after = tree.root_hash();
            let sig_packed = match pack_signature(&t.signature.signature) {
                Ok(v) => v,
                Err(e) => { return Err(e); },
            };
            let (m1, m2, m3, sig_data, key_digest) = match prepare_sig_data(
                &sig_packed, &encode_op(op), &t.signature.pub_key,
            ) {
                Ok(v) => v,
                Err(e) => { return Err(e); },
            };
            let args_hash = sig_args_hash(m1, m2, m3, &sig_data, key_digest);
            let cop = CircuitOp { kind: CircuitOpKind::Transfer, root_before, root_after, args_hash };
            let fee = CollectedFee { token: t.token, amount: t.fee };
            Ok((Some(cop), chunk_pubdata(op), Some(fee)))
        },
        FranklinOp::TransferToNew(t) => {
            let root_before = tree.root_hash();
            debit_account(tree, t.from, t.token, t.amount, t.fee);
            credit_account(tree, t.to, t.token, t.amount);
            let root_after = tree.root_hash();
            let sig_packed = match pack_signature(&t.signature.signature) {
                Ok(v) => v,
                Err(e) => { return Err(e); },
            };
            let (m1, m2, m3, sig_data, key_digest) = match prepare_sig_data(
                &sig_packed, &encode_op(op), &t.signature.pub_key,
            ) {
                Ok(v) => v,
                Err(e) => { return Err(e); },
            };
            let args_hash = sig_args_hash(m1, m2, m3, &sig_data, key_digest);
            let cop = CircuitOp { kind: CircuitOpKind::TransferToNew, root_before, root_after, args_hash };
            let fee = CollectedFee { token: t.token, amount: t.fee };
            Ok((Some(cop), chunk_pubdata(op), Some(fee)))
        },
        FranklinOp::Withdraw(w) => {
            let root_before = tree.root_hash();
            debit_account(tree, w.account, w.token, w.amount, w.fee);
            let root_after = tree.root_hash();
            let sig_packed = match pack_signature(&w.signature.signature) {
                Ok(v) => v,
                Err(e) => { return Err(e); },
            };
            let (m1, m2, m3, sig_data, key_digest) = match prepare_sig_data(
                &sig_packed, &encode_op(op), &w.signature.pub_key,
            ) {
                Ok(v) => v,
                Err(e) => { return Err(e); },
            };
            let args_hash = sig_args_hash(m1, m2, m3, &sig_data, key_digest);
            let cop = CircuitOp { kind: CircuitOpKind::Withdraw, root_before, root_after, args_hash };
            let fee = CollectedFee { token: w.token, amount: w.fee };
            Ok((Some(cop), chunk_pubdata(op), Some(fee)))
        },
        FranklinOp::Close(c) => {
            let root_before = tree.root_hash();
            tree.insert(c.account, default_account());
            let root_after = tree.root_hash();
            let sig_packed = match pack_signature(&c.signature.signature) {
                Ok(v) => v,
                Err(e) => { return Err(e); },
            };
            let (m1, m2, m3, sig_data, key_digest) = match prepare_sig_data(
                &sig_packed, &encode_op(op), &c.signature.pub_key,
            ) {
                Ok(v) => v,
                Err(e) => { return Err(e); },
            };
            let args_hash = sig_args_hash(m1, m2, m3, &sig_data, key_digest);
            let cop = CircuitOp { kind: CircuitOpKind::Close, root_before, root_after, args_hash };
            let fee = CollectedFee { token: c.token, amount: c.fee };
            Ok((Some(cop), chunk_pubdata(op), Some(fee)))
        },
    }
}

/// The fee entry an operation appends, as a sequence.
pub open spec fn spec_fee_entry(op: FranklinOp) -> Seq<CollectedFee> {
    match spec_op_fee(op) {
        Some(f) => seq![f],
        None => Seq::empty(),
    }
}

/// Applies one operation and appends its circuit slot, public data and
/// fee to the running accumulators.
fn process_op(
    tree: &mut AccountTree,
    operations: &mut Vec<CircuitOp>,
    pub_data: &mut Vec<u8>,
    fees: &mut Vec<CollectedFee>,
    op: &FranklinOp,
) -> (r: Result<(), ReplayError>)
    requires
        old(tree).wf(),
    ensures
        final(tree).wf(),
        final(tree).as_map() == spec_apply_map(old(tree).as_map(), *op),
        match r {
            Ok(()) => {
                &&& spec_op_error(*op) is None
                &&& final(operations)@ == old(operations)@ + spec_circuit_ops(old(tree).as_map(), *op)
                &&& final(pub_data)@ == old(pub_data)@ + spec_op_pubdata(*op)
                &&& final(fees)@ == old(fees)@ + spec_fee_entry(*op)
            },
            Err(e) => spec_op_error(*op) == Some(e),
        },
{
    match apply_ledger_op(tree, op) {
        Ok((cop, mut pd, fee)) => {
            match cop {
                Some(c) => {
                    operations.push(c);
                    proof {
                        assert(operations@ =~= old(operations)@ + spec_circuit_ops(old(tree).as_map(), *op));
                    }
                },
                None => {
                    proof {
                        assert(operations@ =~= old(operations)@ + spec_circuit_ops(old(tree).as_map(), *op));
                    }
                },
            }
            pub_data.append(&mut pd);
            match fee {
                Some(f) => {
                    fees.push(f);
                    proof {
                        assert(fees@ =~= old(fees)@ + spec_fee_entry(*op));
                    }
                },
                None => {
                    proof {
                        assert(fees@ =~= old(fees)@ + spec_fee_entry(*op));
                    }
                },
            }
            Ok(())
        },
        Err(e) => Err(e),
    }
}

/// One replay step: unfolds each of the replay folds by one operation.
proof fn lemma_replay_step(
    m0: Map<u16, AccountModel>,
    pre_map: Map<u16, AccountModel>,
    ops_seq: Seq<FranklinOp>,
    i: int,
    pre_ops: Seq<CircuitOp>,
    pre_pd: Seq<u8>,
    pre_fees: Seq<CollectedFee>,
)
    requires
        0 <= i < ops_seq.len(),
        spec_replay_map(m0, ops_seq) == spec_replay_map(pre_map, ops_seq.skip(i)),
        spec_replay_ops(m0, ops_seq) == pre_ops + spec_replay_ops(pre_map, ops_seq.skip(i)),
        spec_replay_pubdata(ops_seq) == pre_pd + spec_replay_pubdata(ops_seq.skip(i)),
        spec_replay_fees(ops_seq) == pre_fees + spec_replay_fees(ops_seq.skip(i)),
        spec_first_op_error(ops_seq) == spec_first_op_error(ops_seq.skip(i)),
        spec_op_error(ops_seq[i]) is None,
    ensures
        spec_replay_map(m0, ops_seq) == spec_replay_map(
            spec_apply_map(pre_map, ops_seq[i]), ops_seq.skip(i + 1)),
        spec_replay_ops(m0, ops_seq) == (pre_ops + spec_circuit_ops(pre_map, ops_seq[i]))
            + spec_replay_ops(spec_apply_map(pre_map, ops_seq[i]), ops_seq.skip(i + 1)),
        spec_replay_pubdata(ops_seq) == (pre_pd + spec_op_pubdata(ops_seq[i]))
            + spec_replay_pubdata(ops_seq.skip(i + 1)),
        spec_replay_fees(ops_seq) == (pre_fees + spec_fee_entry(ops_seq[i]))
            + spec_replay_fees(ops_seq.skip(i + 1)),
        spec_first_op_error(ops_seq) == spec_first_op_error(ops_seq.skip(i + 1)),
{
    let s = ops_seq.skip(i);
    assert(s.first() == ops_seq[i]);
    assert(s.drop_first() =~= ops_seq.skip(i + 1));
    assert(spec_replay_ops(pre_map, s) == spec_circuit_ops(pre_map, ops_seq[i])
        + spec_replay_ops(spec_apply_map(pre_map, ops_seq[i]), ops_seq.skip(i + 1)));
    assert(pre_ops + (spec_circuit_ops(pre_map, ops_seq[i])
        + spec_replay_ops(spec_apply_map(pre_map, ops_seq[i]), ops_seq.skip(i + 1)))
        =~= (pre_ops + spec_circuit_ops(pre_map, ops_seq[i]))
            + spec_replay_ops(spec_apply_map(pre_map, ops_seq[i]), ops_seq.skip(i + 1)));
    assert(spec_replay_pubdata(s) == spec_op_pubdata(ops_seq[i])
        + spec_replay_pubdata(ops_seq.skip(i + 1)));
    assert(pre_pd + (spec_op_pubdata(ops_seq[i]) + spec_replay_pubdata(ops_seq.skip(i + 1)))
        =~= (pre_pd + spec_op_pubdata(ops_seq[i])) + spec_replay_pubdata(ops_seq.skip(i + 1)));
    assert(spec_replay_fees(s) =~= spec_fee_entry(ops_seq[i]) + spec_replay_fees(ops_seq.skip(i + 1)));
    assert(pre_fees + (spec_fee_entry(ops_seq[i]) + spec_replay_fees(ops_seq.skip(i + 1)))
        =~= (pre_fees + spec_fee_entry(ops_seq[i])) + spec_replay_fees(ops_seq.skip(i + 1)));
}

/// Replays a whole operation list against the tree, accumulating circuit
/// slots, public data and fees; stops at the first failing operation.
fn replay_all(tree: &mut AccountTree, ops: &Vec<FranklinOp>) -> (r: Result<
    (Vec<CircuitOp>, Vec<u8>, Vec<CollectedFee>),
    ReplayError,
>)
    requires
        old(tree).wf(),
    ensures
        final(tree).wf(),
        match r {
            Ok((cops, pd, fees)) => {
                &&& spec_first_op_error(ops@) is None
                &&& final(tree).as_map() == spec_replay_map(old(tree).as_map(), ops@)
                &&& cops@ == spec_replay_ops(old(tree).as_map(), ops@)
                &&& pd@ == spec_replay_pubdata(ops@)
                &&& fees@ == spec_replay_fees(ops@)
            },
            Err(e) => spec_first_op_error(ops@) == Some(e),
        },
{
    let ghost m0 = old(tree).as_map();
    let ghost ops_seq = ops@;
    proof {
        assert(ops_seq.skip(0) =~= ops_seq);
    }
    let mut operations: Vec<CircuitOp> = Vec::new();
    let mut pub_data: Vec<u8> = Vec::new();
    let mut fees: Vec<CollectedFee> = Vec::new();
    let mut i: usize = 0;
    while i < ops.len()
        invariant
            0 <= i <= ops_seq.len(),
            ops_seq == ops@,
            tree.wf(),
            spec_replay_map(m0, ops_seq) == spec_replay_map(tree.as_map(), ops_seq.skip(i as int)),
            spec_replay_ops(m0, ops_seq) == operations@ + spec_replay_ops(tree.as_map(), ops_seq.skip(i as int)),
            spec_replay_pubdata(ops_seq) == pub_data@ + spec_replay_pubdata(ops_seq.skip(i as int)),
            spec_replay_fees(ops_seq) == fees@ + spec_replay_fees(ops_seq.skip(i as int)),
            spec_first_op_error(ops_seq) == spec_first_op_error(ops_seq.skip(i as int)),
        decreases ops_seq.len() - i,
    {
        let ghost pre_map = tree.as_map();
        let ghost pre_ops = operations@;
        let ghost pre_pd = pub_data@;
        let ghost pre_fees = fees@;
        proof {
            assert(ops_seq.skip(i as int).first() == ops_seq[i as int]);
        }
        let op = &ops[i];
        match process_op(tree, &mut operations, &mut pub_data, &mut fees, op) {
            Ok(()) => {
                proof {
                    lemma_replay_step(m0, pre_map, ops_seq, i as int, pre_ops, pre_pd, pre_fees);
                }
            },
            Err(e) => {
                proof {
                    assert(spec_first_op_error(ops_seq.skip(i as int)) == Some(e));
                }
                return Err(e);
            },
        }
        i = i + 1;
    }
    proof {
        assert(ops_seq.skip(ops_seq.len() as int) =~= Seq::<FranklinOp>::empty());
        assert(operations@ =~= operations@ + Seq::<CircuitOp>::empty());
        assert(pub_data@ =~= pub_data@ + Seq::<u8>::empty());
        assert(fees@ =~= fees@ + Seq::<CollectedFee>::empty());
    }
    Ok((operations, pub_data, fees))
}

/// The account map a snapshot's id/state pairs denote (earlier entries win;

/// snapshots have unique ids, so the order is irrelevant).
pub open spec fn spec_map_of_accounts(s: Seq<(u16, AccountModel)>) -> Map<u16, AccountModel>
    decreases s.len(),
{
    if s.len() == 0 {
        Map::empty()
    } else {
        spec_map_of_accounts(s.drop_first()).insert(s.first().0, s.first().1)
    }
}

/// The account map committed immediately before the block, as storage
/// recorded it.
pub open spec fn spec_initial_map(st: Storage, block_number: u32) -> Map<u16, AccountModel> {
    match spec_find_state(st.states@, (block_number - 1) as u32) {
        Some(s) => spec_map_of_accounts(accounts_view(s)),
        None => Map::empty(),
    }
}

/// The block's operation list, as storage recorded it.
pub open spec fn spec_block_ops(st: Storage, block_number: u32) -> Seq<FranklinOp> {
    spec_find_ops(st.block_ops@, block_number).unwrap()
}

/// When a replay succeeds: the block's size is supported, storage has the
/// prior snapshot and the operation list, every signature packs and
/// prepares, the operations fit the declared capacity, and settling the
/// replayed state reproduces the committed new root.
pub open spec fn spec_build_ok(st: Storage, commit: Operation) -> bool {
    let bn = commit.block.block_number;
    let bs = commit.block.block_size;
    &&& bs <= MAX_BLOCK_SIZE
    &&& bn >= 1
    &&& spec_find_state(st.states@, (bn - 1) as u32) is Some
    &&& spec_find_ops(st.block_ops@, bn) is Some
    &&& spec_first_op_error(spec_block_ops(st, bn)) is None
    &&& spec_total_chunks(spec_block_ops(st, bn)) <= bs as nat
    &&& spec_root(spec_settle_map(
        spec_replay_map(spec_initial_map(st, bn), spec_block_ops(st, bn)),
        spec_replay_fees(spec_block_ops(st, bn)),
        commit.block.fee_account,
    )) == commit.block.new_root_hash
}

/// Which error a failing replay reports, in check order.
pub open spec fn spec_build_err(st: Storage, commit: Operation) -> ReplayError {
    let bn = commit.block.block_number;
    let bs = commit.block.block_size;
    if bs > MAX_BLOCK_SIZE {
        ReplayError::UnsupportedBlockSize
    } else if bn < 1 {
        ReplayError::StorageRead
    } else if spec_find_state(st.states@, (bn - 1) as u32) is None {
        ReplayError::StorageRead
    } else if spec_find_ops(st.block_ops@, bn) is None {
        ReplayError::StorageRead
    } else if spec_first_op_error(spec_block_ops(st, bn)) is Some {
        spec_first_op_error(spec_block_ops(st, bn)).unwrap()
    } else if spec_total_chunks(spec_block_ops(st, bn)) > bs as nat {
        ReplayError::WitnessShape
    } else {
        ReplayError::RootMismatch
    }
}

/// The full contract of one replay: on success every `ProverData` field
/// equals its replay-level definition; on failure the error is the one
/// the failing check reports, and success holds exactly on
/// `spec_build_ok` inputs.
pub open spec fn spec_build_post(st: Storage, commit: Operation, r: Result<ProverData, ReplayError>) -> bool {
    match r {
        Ok(pd) => spec_build_ok(st, commit) && {
            let bn = commit.block.block_number;
            let bs = commit.block.block_size;
            let m0 = spec_initial_map(st, bn);
            let ops = spec_block_ops(st, bn);
            let m1 = spec_replay_map(m0, ops);
            let fees = spec_replay_fees(ops);
            let m2 = spec_settle_map(m1, fees, commit.block.fee_account);
            let settled = spec_settle_account(spec_get_or_default(m1, commit.block.fee_account), fees);
            &&& pd.old_root == spec_root(m0)
            &&& pd.new_root == commit.block.new_root_hash
            &&& pd.validator_address == commit.block.fee_account as u64
            &&& pd.operations@ == spec_pad_ops(spec_replay_ops(m0, ops), bs as nat, spec_root(m1))
            &&& pd.operations@.len() == bs
            &&& pd.public_data_commitment == spec_commitment(
                bn,
                commit.block.fee_account,
                spec_root(m0),
                spec_root(m2),
                spec_pad_bytes(spec_replay_pubdata(ops), (CHUNK_BYTES * bs) as nat),
            )
            &&& pd.validator_balances@ == settled.balances
            &&& pd.validator_account == AccountWitness {
                nonce: settled.nonce,
                pub_key_hash: settled.pub_key_hash,
            }
            &&& pd.validator_audit_path@ == spec_audit_path(m2, commit.block.fee_account)
        },
        Err(e) => !spec_build_ok(st, commit) && e == spec_build_err(st, commit),
    }
}

/// Replays one committed block against the prior snapshot and assembles
/// the prover's witness input; fails rather than ever returning witness
/// data inconsistent with the committed new root.
#[verifier::rlimit(100)]
pub fn build_prover_data(storage: &Storage, commit_operation: &Operation) -> (r: Result<
    ProverData,
    ReplayError,
>)
    requires
        storage.wf(),
    ensures
        spec_build_post(*storage, *commit_operation, r),
{
    let block_number = commit_operation.block.block_number;
    let block_size = commit_operation.block.smallest_block_size();
    if block_size > MAX_BLOCK_SIZE {
        return Err(ReplayError::UnsupportedBlockSize);
    }
    if block_number == 0 {
        return Err(ReplayError::StorageRead);
    }
    let mut accounts = match storage.load_committed_state(block_number - 1) {
        Some(a) => a,
        None => { return Err(ReplayError::StorageRead); },
    };
    let ghost va = accounts_view(accounts@);
    let ghost m0 = spec_initial_map(*storage, block_number);
    let mut account_tree = AccountTree::new();
    proof {
        assert(va =~= accounts_view(spec_find_state(storage.states@, (block_number - 1) as u32).unwrap()));
        assert(va.skip(va.len() as int) =~= Seq::<(u16, AccountModel)>::empty());
        assert(accounts@.take(accounts@.len() as int) =~= accounts@);
    }
    while accounts.len() > 0
        invariant
            account_tree.wf(),
            accounts@.len() <= va.len(),
            accounts@ == accounts@.take(accounts@.len() as int),
            forall|k: int| 0 <= k < accounts@.len() ==> (#[trigger] accounts@[k]).0 == va[k].0
                && accounts@[k].1@ == va[k].1,
            forall|k: int| 0 <= k < accounts@.len() ==> account_model_wf((#[trigger] accounts@[k]).1@),
            account_tree.as_map() == spec_map_of_accounts(va.skip(accounts@.len() as int)),
        decreases accounts@.len(),
    {
        let ghost n = accounts@.len() as int;
        let (id, a) = match accounts.pop() {
            Some(p) => p,
            None => { proof { assert(false); } (0u16, default_account()) },
        };
        account_tree.insert(id, a);
        proof {
            assert(va.skip(n - 1).first() == va[n - 1]);
            assert(va.skip(n - 1).drop_first() =~= va.skip(n));
            assert(accounts@ =~= accounts@.take(accounts@.len() as int));
        }
    }
    proof {
        assert(va.skip(0) =~= va);
        assert(account_tree.as_map() == m0);
    }

    let mut witness_accum = WitnessBuilder::new(account_tree, commit_operation.block.fee_account, block_number);
    let initial_root = witness_accum.account_tree.root_hash();
    let ops = match storage.get_block_operations(block_number) {
        Some(o) => o,
        None => { return Err(ReplayError::StorageRead); },
    };
    let ghost ops_seq = ops@;
    proof {
        assert(ops_seq == spec_block_ops(*storage, block_number));
        assert(ops_seq.skip(0) =~= ops_seq);
    }

    let (operations, pub_data, fees) = match replay_all(&mut witness_accum.account_tree, ops) {
        Ok(t) => t,
        Err(e) => { return Err(e); },
    };
    proof {
        lemma_replay_lengths(m0, ops_seq);
    }
    let ghost m1 = spec_replay_map(m0, ops_seq);

    witness_accum.add_operation_with_pubdata(operations, pub_data);
    witness_accum.extend_pubdata_with_noops(block_size);
    if witness_accum.operations.len() != block_size {
        return Err(ReplayError::WitnessShape);
    }
    if witness_accum.pubdata.len() != CHUNK_BYTES * block_size {
        return Err(ReplayError::WitnessShape);
    }
    proof {
        assert(spec_total_chunks(ops_seq) <= block_size as nat);
    }

    witness_accum.collect_fees(&fees);
    let ghost m2 = spec_settle_map(m1, fees@, commit_operation.block.fee_account);
    let root_after_fees = match witness_accum.root_after_fees {
        Some(r) => r,
        None => { proof { assert(false); } 0 },
    };
    if root_after_fees != commit_operation.block.new_root_hash {
        return Err(ReplayError::RootMismatch);
    }
    witness_accum.calculate_pubdata_commitment();

    let validator_address = commit_operation.block.fee_account as u64;
    let WitnessBuilder {
        operations: final_ops,
        fee_account_balances,
        fee_account_audit_path,
        fee_account_witness,
        pubdata_commitment,
        ..
    } = witness_accum;
    let public_data_commitment = match pubdata_commitment {
        Some(c) => c,
        None => { proof { assert(false); } 0 },
    };
    let validator_balances = match fee_account_balances {
        Some(b) => b,
        None => { proof { assert(false); } Vec::new() },
    };
    let validator_audit_path = match fee_account_audit_path {
        Some(p) => p,
        None => { proof { assert(false); } Vec::new() },
    };
    let validator_account = match fee_account_witness {
        Some(w) => w,
        None => { proof { assert(false); } AccountWitness { nonce: 0, pub_key_hash: 0 } },
    };

    Ok(ProverData {
        public_data_commitment,
        old_root: initial_root,
        new_root: commit_operation.block.new_root_hash,
        validator_address,
        operations: final_ops,
        validator_balances,
        validator_audit_path,
        validator_account,
    })
}

} // verus!
