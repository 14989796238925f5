//! The library's cross-cutting guarantees, stated and proved once:
//! refill monotonicity, witness shape, chain continuity, replay
//! determinism, and fee-settlement correctness.

use vstd::prelude::*;
use crate::account::{AccountModel, account_model_wf, TOTAL_TOKENS};
use crate::ops::{Operation, CollectedFee, CHUNK_BYTES};
use crate::pool::{BlockSizedOperationsQueue, spec_refill_post};
use crate::replay::{
    ProverData, spec_build_post, spec_block_ops, spec_initial_map, spec_map_of_accounts,
    spec_replay_map, spec_replay_fees, spec_replay_pubdata, lemma_replay_lengths,
};
use crate::store::{Storage, spec_find_state, spec_eligible, spec_load_commits, accounts_view};
use crate::tree::spec_root;
use crate::witness::{spec_settle_map, spec_settle_account, spec_apply_fees, spec_pad_bytes};

verus! {

/// The newest block number storage holds a commit for (zero when empty).
pub open spec fn spec_max_commit(commits: Seq<Operation>) -> int {
    if commits.len() == 0 {
        0
    } else {
        commits.last().block.block_number as int
    }
}

/// Refilling never moves the cursor backwards, and never past the newest
/// block storage actually holds: across any number of refill cycles the
/// cursor is monotonically non-decreasing and bounded by storage.
pub proof fn lemma_refill_monotone(
    q1: BlockSizedOperationsQueue,
    q2: BlockSizedOperationsQueue,
    st: Storage,
    limit: i64,
)
    requires
        q1.wf(),
        st.wf(),
        spec_refill_post(q1, q2, st, limit),
    ensures
        q1.last_loaded() <= q2.last_loaded(),
        q1.last_loaded() as int <= spec_max_commit(st.commits@)
            ==> q2.last_loaded() as int <= spec_max_commit(st.commits@),
{
    let lim: nat = if limit <= 0 { 0 } else { limit as nat };
    if q1.ops().len() < lim {
        let loaded = spec_load_commits(st.commits@, q1.size_class(), q1.last_loaded(), limit);
        let e = spec_eligible(st.commits@, q1.size_class(), q1.last_loaded());
        crate::pool::lemma_eligible_props(st.commits@, q1.size_class(), q1.last_loaded());
        assert(q2.ops() == q1.ops() + loaded);
        if q2.ops().len() > 0 {
            let last = q2.ops().last();
            if loaded.len() > 0 {
                assert(last == loaded.last());
                assert(loaded.last() == e[loaded.len() - 1]);
                assert(last.block.block_number > q1.last_loaded());
                let j = choose|j: int| 0 <= j < st.commits@.len()
                    && st.commits@[j] == e[loaded.len() - 1];
                if j < st.commits@.len() - 1 {
                    assert(st.commits@[j].block.block_number
                        < st.commits@[st.commits@.len() - 1].block.block_number);
                }
                assert(last.block.block_number as int <= spec_max_commit(st.commits@));
            } else {
                assert(q2.ops() =~= q1.ops());
                assert(last == q1.ops().last());
            }
        }
    }
}

/// For any successfully built `ProverData` the circuit operation sequence
/// has exactly the block's declared capacity, and the padded public-data
/// stream behind its commitment has exactly 64 bytes per slot.
pub proof fn lemma_prover_data_shape(st: Storage, commit: Operation, pd: ProverData)
    requires
        spec_build_post(st, commit, Result::Ok(pd)),
    ensures
        pd.operations@.len() == commit.block.block_size,
        spec_pad_bytes(
            spec_replay_pubdata(spec_block_ops(st, commit.block.block_number)),
            (CHUNK_BYTES * commit.block.block_size) as nat,
        ).len() == CHUNK_BYTES * commit.block.block_size,
{
    let ops = spec_block_ops(st, commit.block.block_number);
    let m0 = spec_initial_map(st, commit.block.block_number);
    lemma_replay_lengths(m0, ops);
}

/// Chain continuity: when storage's snapshot at block K is the state that
/// replaying block K (and settling its fees) produces, then block K+1's
/// `old_root` equals block K's `new_root`.
pub proof fn lemma_chain_continuity(
    st: Storage,
    c1: Operation,
    c2: Operation,
    pd1: ProverData,
    pd2: ProverData,
)
    requires
        spec_build_post(st, c1, Result::Ok(pd1)),
        spec_build_post(st, c2, Result::Ok(pd2)),
        c2.block.block_number == c1.block.block_number + 1,
        spec_find_state(st.states@, c1.block.block_number) matches Some(s)
            && spec_map_of_accounts(accounts_view(s)) == spec_settle_map(
                spec_replay_map(
                    spec_initial_map(st, c1.block.block_number),
                    spec_block_ops(st, c1.block.block_number),
                ),
                spec_replay_fees(spec_block_ops(st, c1.block.block_number)),
                c1.block.fee_account,
            ),
    ensures
        pd2.old_root == pd1.new_root,
{
    let bn1 = c1.block.block_number;
    assert((c2.block.block_number - 1) as u32 == bn1);
    let m2 = spec_settle_map(
        spec_replay_map(spec_initial_map(st, bn1), spec_block_ops(st, bn1)),
        spec_replay_fees(spec_block_ops(st, bn1)),
        c1.block.fee_account,
    );
    assert(spec_initial_map(st, c2.block.block_number) == m2);
    assert(pd2.old_root == spec_root(m2));
    assert(spec_root(m2) == c1.block.new_root_hash);
}

/// Determinism: two successful replays of the same committed block from
/// the same storage agree on every field of the witness data.
pub proof fn lemma_build_deterministic(st: Storage, commit: Operation, pd1: ProverData, pd2: ProverData)
    requires
        spec_build_post(st, commit, Result::Ok(pd1)),
        spec_build_post(st, commit, Result::Ok(pd2)),
    ensures
        pd1.public_data_commitment == pd2.public_data_commitment,
        pd1.operations@ == pd2.operations@,
        pd1.old_root == pd2.old_root,
        pd1.new_root == pd2.new_root,
        pd1.validator_address == pd2.validator_address,
        pd1.validator_balances@ == pd2.validator_balances@,
        pd1.validator_audit_path@ == pd2.validator_audit_path@,
        pd1.validator_account == pd2.validator_account,
{
}

/// The wrapping sum a token's balance reaches as a fee list is settled.
pub open spec fn spec_fee_wsum(v0: u128, fees: Seq<CollectedFee>, token: u8) -> u128
    decreases fees.len(),
{
    if fees.len() == 0 {
        v0
    } else {
        spec_fee_wsum(
            if fees.first().token == token {
                vstd::wrapping::u128_specs::wrapping_add(v0, fees.first().amount)
            } else {
                v0
            },
            fees.drop_first(),
            token,
        )
    }
}

/// The exact sum of the fees collected in one token.
pub open spec fn spec_fee_total(fees: Seq<CollectedFee>, token: u8) -> int
    decreases fees.len(),
{
    if fees.len() == 0 {
        0
    } else {
        (if fees.first().token == token { fees.first().amount as int } else { 0 })
            + spec_fee_total(fees.drop_first(), token)
    }
}

pub proof fn lemma_fee_total_nonneg(fees: Seq<CollectedFee>, token: u8)
    ensures
        spec_fee_total(fees, token) >= 0,
    decreases fees.len(),
{
    if fees.len() > 0 {
        lemma_fee_total_nonneg(fees.drop_first(), token);
    }
}

/// Settling a fee list changes each token's balance to the wrapping sum
/// of its fees, and leaves the balance width unchanged.
pub proof fn lemma_apply_fees_per_token(b: Seq<u128>, fees: Seq<CollectedFee>, token: u8)
    requires
        b.len() == TOTAL_TOKENS,
    ensures
        spec_apply_fees(b, fees).len() == TOTAL_TOKENS,
        spec_apply_fees(b, fees)[token as int] == spec_fee_wsum(b[token as int], fees, token),
    decreases fees.len(),
{
    if fees.len() > 0 {
        let f = fees.first();
        let b1 = b.update(
            f.token as int,
            vstd::wrapping::u128_specs::wrapping_add(b[f.token as int], f.amount),
        );
        lemma_apply_fees_per_token(b1, fees.drop_first(), token);
    }
}

/// Fee-settlement correctness: when the totals fit, the fee account's
/// post-settlement balance for a token equals its prior balance plus the
/// sum of the fees collected in that token.
pub proof fn lemma_fee_settlement_exact(a: AccountModel, fees: Seq<CollectedFee>, token: u8)
    requires
        account_model_wf(a),
        a.balances[token as int] + spec_fee_total(fees, token) <= u128::MAX,
    ensures
        spec_settle_account(a, fees).balances[token as int]
            == a.balances[token as int] + spec_fee_total(fees, token),
{
    lemma_apply_fees_per_token(a.balances, fees, token);
    lemma_fee_wsum_exact(a.balances[token as int], fees, token);
}

proof fn lemma_fee_wsum_exact(v0: u128, fees: Seq<CollectedFee>, token: u8)
    requires
        v0 + spec_fee_total(fees, token) <= u128::MAX,
    ensures
        spec_fee_wsum(v0, fees, token) == v0 + spec_fee_total(fees, token),
    decreases fees.len(),
{
    if fees.len() > 0 {
        let f = fees.first();
        lemma_fee_total_nonneg(fees.drop_first(), token);
        if f.token == token {
            let v1 = vstd::wrapping::u128_specs::wrapping_add(v0, f.amount);
            assert(v1 == v0 + f.amount);
            lemma_fee_wsum_exact(v1, fees.drop_first(), token);
        } else {
            lemma_fee_wsum_exact(v0, fees.drop_first(), token);
        }
    }
}

} // verus!
