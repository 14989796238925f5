//! The witness accumulator: one per replay, it owns the live account
//! tree, the growing circuit-operation and public-data sequences, and the
//! end-of-block aggregation (padding, fee settlement, commitment).

use vstd::prelude::*;
use crate::account::{AccountModel, copy_balances, TOTAL_TOKENS};
use crate::hashing::{spec_combine, spec_fold_bytes, combine, fold_bytes};
use crate::ops::{CircuitOp, CircuitOpKind, CollectedFee, AccountWitness, CHUNK_BYTES};
use crate::tree::{AccountTree, spec_get_or_default, spec_root, spec_audit_path};

verus! {

/// Largest block capacity a witness can be built for; bounds the padded
/// public-data stream well inside `usize`.
pub const MAX_BLOCK_SIZE: usize = 1048576;

/// The balances after a fee list is settled into them, in list order.
pub open spec fn spec_apply_fees(b: Seq<u128>, fees: Seq<CollectedFee>) -> Seq<u128>
    decreases fees.len(),
{
    if fees.len() == 0 {
        b
    } else {
        spec_apply_fees(
            b.update(
                fees.first().token as int,
                vstd::wrapping::u128_specs::wrapping_add(b[fees.first().token as int], fees.first().amount),
            ),
            fees.drop_first(),
        )
    }
}

/// The fee account's state after settlement.
pub open spec fn spec_settle_account(a: AccountModel, fees: Seq<CollectedFee>) -> AccountModel {
    AccountModel {
        balances: spec_apply_fees(a.balances, fees),
        nonce: a.nonce,
        pub_key_hash: a.pub_key_hash,
    }
}

/// The account map after the collected fees are settled into the fee
/// account (created fresh if absent).
pub open spec fn spec_settle_map(
    m: Map<u16, AccountModel>,
    fees: Seq<CollectedFee>,
    fee_account: u16,
) -> Map<u16, AccountModel> {
    m.insert(fee_account, spec_settle_account(spec_get_or_default(m, fee_account), fees))
}

/// The public-data commitment: a hash binding the block number, the fee
/// account, the roots around the block, and the padded public-data stream.
pub open spec fn spec_commitment(
    block_number: u32,
    fee_account: u16,
    old_root: u64,
    new_root: u64,
    pubdata: Seq<u8>,
) -> u64 {
    spec_fold_bytes(
        spec_combine(spec_combine(block_number as u64, fee_account as u64), spec_combine(old_root, new_root)),
        pubdata,
    )
}

/// The padding slot: a no-op circuit operation at the current root.
pub open spec fn spec_noop_op(root: u64) -> CircuitOp {
    CircuitOp { kind: CircuitOpKind::Noop, root_before: root, root_after: root, args_hash: 0 }
}

/// An operation sequence padded with no-op slots up to `n` entries.
pub open spec fn spec_pad_ops(base: Seq<CircuitOp>, n: nat, root: u64) -> Seq<CircuitOp> {
    base + Seq::new(
        if base.len() < n { (n - base.len()) as nat } else { 0 },
        |i: int| spec_noop_op(root),
    )
}

/// A byte stream padded with zeroes up to `n` bytes.
pub open spec fn spec_pad_bytes(base: Seq<u8>, n: nat) -> Seq<u8> {
    base + Seq::new(
        if base.len() < n { (n - base.len()) as nat } else { 0 },
        |i: int| 0u8,
    )
}

/// The witness accumulator.
pub struct WitnessBuilder {
    pub account_tree: AccountTree,
    pub fee_account: u16,
    pub block_number: u32,
    pub initial_root: u64,
    pub operations: Vec<CircuitOp>,
    pub pubdata: Vec<u8>,
    pub root_after_fees: Option<u64>,
    pub fee_account_balances: Option<Vec<u128>>,
    pub fee_account_audit_path: Option<Vec<u64>>,
    pub fee_account_witness: Option<AccountWitness>,
    pub pubdata_commitment: Option<u64>,
}

impl WitnessBuilder {
    /// Starts an accumulator around a freshly materialized tree.
    pub fn new(account_tree: AccountTree, fee_account: u16, block_number: u32) -> (r: WitnessBuilder)
        requires
            account_tree.wf(),
        ensures
            r.account_tree == account_tree,
            r.account_tree.wf(),
            r.fee_account == fee_account,
            r.block_number == block_number,
            r.initial_root == spec_root(account_tree.as_map()),
            r.operations@ == Seq::<CircuitOp>::empty(),
            r.pubdata@ == Seq::<u8>::empty(),
            r.root_after_fees is None,
            r.fee_account_balances is None,
            r.fee_account_audit_path is None,
            r.fee_account_witness is None,
            r.pubdata_commitment is None,
    {
        let initial_root = account_tree.root_hash();
        WitnessBuilder {
            account_tree,
            fee_account,
            block_number,
            initial_root,
            operations: Vec::new(),
            pubdata: Vec::new(),
            root_after_fees: None,
            fee_account_balances: None,
            fee_account_audit_path: None,
            fee_account_witness: None,
            pubdata_commitment: None,
        }
    }

    /// Appends a batch of circuit operations and their public data.
    pub fn add_operation_with_pubdata(&mut self, ops: Vec<CircuitOp>, pubdata: Vec<u8>)
        ensures
            *final(self) == (WitnessBuilder {
                operations: final(self).operations,
                pubdata: final(self).pubdata,
                ..*old(self)
            }),
            final(self).operations@ == old(self).operations@ + ops@,
            final(self).pubdata@ == old(self).pubdata@ + pubdata@,
    {
        let mut ops = ops;
        let mut pubdata = pubdata;
        self.operations.append(&mut ops);
        self.pubdata.append(&mut pubdata);
    }

    /// Pads the operation sequence with no-op slots up to `block_size`
    /// entries and the public-data stream with zero bytes up to
    /// `64 * block_size` bytes.
    pub fn extend_pubdata_with_noops(&mut self, block_size: usize)
        requires
            old(self).account_tree.wf(),
            block_size <= MAX_BLOCK_SIZE,
        ensures
            *final(self) == (WitnessBuilder {
                operations: final(self).operations,
                pubdata: final(self).pubdata,
                ..*old(self)
            }),
            final(self).operations@ == spec_pad_ops(
                old(self).operations@,
                block_size as nat,
                spec_root(old(self).account_tree.as_map()),
            ),
            final(self).pubdata@ == spec_pad_bytes(
                old(self).pubdata@,
                (CHUNK_BYTES * block_size) as nat,
            ),
    {
        let root = self.account_tree.root_hash();
        let ghost base_ops = self.operations@;
        proof {
            assert(self.operations@ =~= spec_pad_ops(base_ops, self.operations@.len() as nat, root));
        }
        while self.operations.len() < block_size
            invariant
                *self == (WitnessBuilder { operations: self.operations, ..*old(self) }),
                root == spec_root(old(self).account_tree.as_map()),
                base_ops == old(self).operations@,
                base_ops.len() <= self.operations@.len(),
                self.operations@.len() <= block_size || self.operations@ == base_ops,
                self.operations@ == spec_pad_ops(base_ops, self.operations@.len() as nat, root),
            decreases block_size - self.operations@.len(),
        {
            self.operations.push(CircuitOp {
                kind: CircuitOpKind::Noop,
                root_before: root,
                root_after: root,
                args_hash: 0,
            });
            proof {
                assert(self.operations@ =~= spec_pad_ops(base_ops, self.operations@.len() as nat, root));
            }
        }
        proof {
            assert(spec_pad_ops(base_ops, self.operations@.len() as nat, root)
                =~= spec_pad_ops(base_ops, block_size as nat, root));
        }
        let target: usize = CHUNK_BYTES * block_size;
        let ghost base_pd = self.pubdata@;
        proof {
            assert(self.pubdata@ =~= spec_pad_bytes(base_pd, self.pubdata@.len() as nat));
        }
        while self.pubdata.len() < target
            invariant
                target == CHUNK_BYTES * block_size,
                *self == (WitnessBuilder { operations: self.operations, pubdata: self.pubdata, ..*old(self) }),
                self.operations@ == spec_pad_ops(
                    old(self).operations@,
                    block_size as nat,
                    spec_root(old(self).account_tree.as_map()),
                ),
                base_pd == old(self).pubdata@,
                base_pd.len() <= self.pubdata@.len(),
                self.pubdata@.len() <= target || self.pubdata@ == base_pd,
                self.pubdata@ == spec_pad_bytes(base_pd, self.pubdata@.len() as nat),
            decreases target - self.pubdata@.len(),
        {
            self.pubdata.push(0u8);
            proof {
                assert(self.pubdata@ =~= spec_pad_bytes(base_pd, self.pubdata@.len() as nat));
            }
        }
        proof {
            assert(spec_pad_bytes(base_pd, self.pubdata@.len() as nat)
                =~= spec_pad_bytes(base_pd, (CHUNK_BYTES * block_size) as nat));
        }
    }

    /// Settles the collected fees into the fee account and records the
    /// post-fee root, balances, audit path and account witness.
    pub fn collect_fees(&mut self, fees: &Vec<CollectedFee>)
        requires
            old(self).account_tree.wf(),
        ensures
            final(self).account_tree.wf(),
            *final(self) == (WitnessBuilder {
                account_tree: final(self).account_tree,
                root_after_fees: final(self).root_after_fees,
                fee_account_balances: final(self).fee_account_balances,
                fee_account_audit_path: final(self).fee_account_audit_path,
                fee_account_witness: final(self).fee_account_witness,
                ..*old(self)
            }),
            final(self).account_tree.as_map() == spec_settle_map(
                old(self).account_tree.as_map(), fees@, old(self).fee_account,
            ),
            final(self).root_after_fees == Some(spec_root(final(self).account_tree.as_map())),
            ({
                let settled = spec_settle_account(
                    spec_get_or_default(old(self).account_tree.as_map(), old(self).fee_account),
                    fees@,
                );
                &&& final(self).fee_account_balances matches Some(b) && b@ == settled.balances
                &&& final(self).fee_account_witness == Some(AccountWitness {
                    nonce: settled.nonce,
                    pub_key_hash: settled.pub_key_hash,
                })
                &&& final(self).fee_account_audit_path matches Some(p)
                    && p@ == spec_audit_path(final(self).account_tree.as_map(), old(self).fee_account)
            }),
    {
        let mut acct = self.account_tree.take_or_default(self.fee_account);
        let ghost taken = spec_get_or_default(old(self).account_tree.as_map(), old(self).fee_account);
        let ghost base_b = acct.balances@;
        proof {
            assert(fees@.skip(0) =~= fees@);
        }
        let mut i: usize = 0;
        while i < fees.len()
            invariant
                0 <= i <= fees@.len(),
                base_b == taken.balances,
                acct.balances@.len() == TOTAL_TOKENS,
                base_b.len() == TOTAL_TOKENS,
                acct.nonce == taken.nonce,
                acct.pub_key_hash == taken.pub_key_hash,
                spec_apply_fees(base_b, fees@) == spec_apply_fees(acct.balances@, fees@.skip(i as int)),
            decreases fees@.len() - i,
        {
            let f = fees[i];
            let b = acct.balances[f.token as usize];
            acct.balances[f.token as usize] = b.wrapping_add(f.amount);
            proof {
                assert(fees@.skip(i as int).first() == fees@[i as int]);
                assert(fees@.skip(i as int).drop_first() =~= fees@.skip(i + 1));
            }
            i = i + 1;
        }
        proof {
            assert(fees@.skip(fees@.len() as int) =~= Seq::<CollectedFee>::empty());
        }
        let balances_copy = copy_balances(&acct.balances);
        let witness = AccountWitness { nonce: acct.nonce, pub_key_hash: acct.pub_key_hash };
        self.account_tree.insert(self.fee_account, acct);
        proof {
            assert(self.account_tree.as_map() =~= spec_settle_map(
                old(self).account_tree.as_map(), fees@, old(self).fee_account,
            ));
        }
        let root = self.account_tree.root_hash();
        let path = self.account_tree.audit_path(self.fee_account);
        self.root_after_fees = Some(root);
        self.fee_account_balances = Some(balances_copy);
        self.fee_account_audit_path = Some(path);
        self.fee_account_witness = Some(witness);
    }

    /// Computes the public-data commitment from the recorded roots and the
    /// padded public-data stream.
    pub fn calculate_pubdata_commitment(&mut self)
        requires
            old(self).root_after_fees is Some,
        ensures
            *final(self) == (WitnessBuilder {
                pubdata_commitment: final(self).pubdata_commitment,
                ..*old(self)
            }),
            final(self).pubdata_commitment == Some(spec_commitment(
                old(self).block_number,
                old(self).fee_account,
                old(self).initial_root,
                old(self).root_after_fees.unwrap(),
                old(self).pubdata@,
            )),
    {
        let new_root = match self.root_after_fees {
            Some(r) => r,
            None => 0,
        };
        let seed = combine(
            combine(self.block_number as u64, self.fee_account as u64),
            combine(self.initial_root, new_root),
        );
        let c = fold_bytes(seed, &self.pubdata);
        self.pubdata_commitment = Some(c);
    }
}

} // verus!
