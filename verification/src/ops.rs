//! Ledger operations, committed blocks, circuit operations and the byte
//! encodings that feed the public-data stream and the signature digests.

use vstd::prelude::*;
use crate::hashing::{spec_combine, spec_fold_bytes, combine, fold_bytes};

verus! {

/// Byte length of a packed transaction signature.
pub const SIG_LEN: usize = 64;

/// Byte length of a signer public key.
pub const PUB_KEY_LEN: usize = 32;

/// Public-data bytes contributed by each circuit operation slot.
pub const CHUNK_BYTES: usize = 64;

/// Seeds for the three signature message digests, the packed-signature
/// digest, the signer-key digest, and the argument digest of unsigned
/// operations.
pub const SIG_SEED_1: u64 = 0x51;
pub const SIG_SEED_2: u64 = 0x52;
pub const SIG_SEED_3: u64 = 0x53;
pub const SIG_DATA_SEED: u64 = 0x5d;
pub const KEY_SEED: u64 = 0x6b;
pub const OP_SEED: u64 = 0x09;

/// Why a replay attempt failed.
#[derive(Clone, Copy, Debug, PartialEq, Eq, Structural)]
pub enum ReplayError {
    /// Storage had no snapshot or operation list for the requested block.
    StorageRead,
    /// A transaction signature could not be packed into its serialized form.
    SignatureUnpack,
    /// Signature data preparation failed on a malformed signer key.
    SignaturePrep,
    /// The block declares a size beyond what a witness can be built for.
    UnsupportedBlockSize,
    /// The accumulated witness does not fit the block's declared capacity.
    WitnessShape,
    /// Replaying the block did not reproduce the committed new root.
    RootMismatch,
}

/// A transaction's signature material.
pub struct TxSignature {
    pub signature: Vec<u8>,
    pub pub_key: Vec<u8>,
}

pub struct DepositOp {
    pub to: u16,
    pub token: u8,
    pub amount: u128,
}

pub struct TransferOp {
    pub from: u16,
    pub to: u16,
    pub token: u8,
    pub amount: u128,
    pub fee: u128,
    pub signature: TxSignature,
}

pub struct WithdrawOp {
    pub account: u16,
    pub token: u8,
    pub amount: u128,
    pub fee: u128,
    pub signature: TxSignature,
}

pub struct CloseOp {
    pub account: u16,
    pub token: u8,
    pub fee: u128,
    pub signature: TxSignature,
}

pub struct FullExitOp {
    pub account: u16,
    pub token: u8,
    pub withdraw_amount: Option<u128>,
}

pub struct ChangePubKeyOp {
    pub account: u16,
    pub new_pub_key_hash: u64,
}

/// A ledger operation of a committed block.
pub enum FranklinOp {
    Deposit(DepositOp),
    Transfer(TransferOp),
    TransferToNew(TransferOp),
    Withdraw(WithdrawOp),
    Close(CloseOp),
    FullExit(FullExitOp),
    ChangePubKeyOffchain(ChangePubKeyOp),
    Noop,
}

/// A fee collected during replay, settled into the fee account at the end
/// of the block.
#[derive(Clone, Copy, Debug, PartialEq, Eq, Structural)]
pub struct CollectedFee {
    pub token: u8,
    pub amount: u128,
}

/// A committed block's header data.
#[derive(Clone, Copy, Debug, PartialEq, Eq, Structural)]
pub struct Block {
    pub block_number: u32,
    pub fee_account: u16,
    pub new_root_hash: u64,
    pub block_size: usize,
}

impl Block {
    /// The smallest supported circuit capacity this block was committed for.
    pub fn smallest_block_size(&self) -> (r: usize)
        ensures r == self.block_size,
    {
        self.block_size
    }
}

/// A commit operation: a block awaiting witness preparation.
#[derive(Clone, Copy, Debug, PartialEq, Eq, Structural)]
pub struct Operation {
    pub block: Block,
}

/// Kind tag of a circuit operation slot.
#[derive(Clone, Copy, Debug, PartialEq, Eq, Structural)]
pub enum CircuitOpKind {
    Noop,
    Deposit,
    Transfer,
    TransferToNew,
    Withdraw,
    Close,
    FullExit,
    ChangePubKey,
}

/// One circuit operation slot: the kind, the tree roots around the
/// operation, and a digest of its arguments and signature material.
#[derive(Clone, Copy, Debug, PartialEq, Eq, Structural)]
pub struct CircuitOp {
    pub kind: CircuitOpKind,
    pub root_before: u64,
    pub root_after: u64,
    pub args_hash: u64,
}

/// The fee account's final nonce and key hash, as the circuit witnesses it.
#[derive(Clone, Copy, Debug, PartialEq, Eq, Structural)]
pub struct AccountWitness {
    pub nonce: u32,
    pub pub_key_hash: u64,
}

/// Big-endian byte encoding of a value, `n` bytes wide.
pub open spec fn spec_be_bytes(v: nat, n: nat) -> Seq<u8>
    decreases n,
{
    if n == 0 {
        Seq::empty()
    } else {
        spec_be_bytes(v / 256, (n - 1) as nat).push((v % 256) as u8)
    }
}

pub proof fn lemma_be_len(v: nat, n: nat)
    ensures spec_be_bytes(v, n).len() == n,
    decreases n,
{
    if n > 0 {
        lemma_be_len(v / 256, (n - 1) as nat);
    }
}

/// Appends the `n`-byte big-endian encoding of `v`.
pub fn push_be(out: &mut Vec<u8>, v: u128, n: usize)
    ensures
        final(out)@ == old(out)@ + spec_be_bytes(v as nat, n as nat),
    decreases n,
{
    if n == 0 {
        proof {
            assert(final(out)@ =~= old(out)@ + spec_be_bytes(v as nat, 0));
        }
        return;
    }
    push_be(out, v / 256, n - 1);
    proof {
        lemma_be_len(v as nat / 256, (n - 1) as nat);
        assert(spec_be_bytes(v as nat, n as nat)
            == spec_be_bytes(v as nat / 256, (n - 1) as nat).push((v as nat % 256) as u8));
    }
    out.push((v % 256) as u8);
    proof {
        assert(final(out)@ =~= old(out)@ + spec_be_bytes(v as nat, n as nat));
    }
}

/// The byte encoding of a ledger operation: a kind tag followed by its
/// fields, big-endian.
pub open spec fn spec_encode_op(op: FranklinOp) -> Seq<u8> {
    match op {
        FranklinOp::Noop => seq![0u8],
        FranklinOp::Deposit(d) => seq![1u8] + spec_be_bytes(d.to as nat, 2)
            + spec_be_bytes(d.token as nat, 1) + spec_be_bytes(d.amount as nat, 16),
        FranklinOp::Transfer(t) => seq![2u8] + spec_be_bytes(t.from as nat, 2)
            + spec_be_bytes(t.to as nat, 2) + spec_be_bytes(t.token as nat, 1)
            + spec_be_bytes(t.amount as nat, 16) + spec_be_bytes(t.fee as nat, 16),
        FranklinOp::TransferToNew(t) => seq![3u8] + spec_be_bytes(t.from as nat, 2)
            + spec_be_bytes(t.to as nat, 2) + spec_be_bytes(t.token as nat, 1)
            + spec_be_bytes(t.amount as nat, 16) + spec_be_bytes(t.fee as nat, 16),
        FranklinOp::Withdraw(w) => seq![4u8] + spec_be_bytes(w.account as nat, 2)
            + spec_be_bytes(w.token as nat, 1) + spec_be_bytes(w.amount as nat, 16)
            + spec_be_bytes(w.fee as nat, 16),
        FranklinOp::Close(c) => seq![5u8] + spec_be_bytes(c.account as nat, 2)
            + spec_be_bytes(c.token as nat, 1) + spec_be_bytes(c.fee as nat, 16),
        FranklinOp::FullExit(f) => seq![6u8] + spec_be_bytes(f.account as nat, 2)
            + spec_be_bytes(f.token as nat, 1)
            + (match f.withdraw_amount {
                Some(a) => seq![1u8] + spec_be_bytes(a as nat, 16),
                None => seq![0u8],
            }),
        FranklinOp::ChangePubKeyOffchain(c) => seq![7u8] + spec_be_bytes(c.account as nat, 2)
            + spec_be_bytes(c.new_pub_key_hash as nat, 8),
    }
}

pub proof fn lemma_encode_len(op: FranklinOp)
    ensures
        1 <= spec_encode_op(op).len() <= CHUNK_BYTES,
{
    match op {
        FranklinOp::Noop => {},
        FranklinOp::Deposit(d) => {
            lemma_be_len(d.to as nat, 2);
            lemma_be_len(d.token as nat, 1);
            lemma_be_len(d.amount as nat, 16);
        },
        FranklinOp::Transfer(t) => {
            lemma_be_len(t.from as nat, 2);
            lemma_be_len(t.to as nat, 2);
            lemma_be_len(t.token as nat, 1);
            lemma_be_len(t.amount as nat, 16);
            lemma_be_len(t.fee as nat, 16);
        },
        FranklinOp::TransferToNew(t) => {
            lemma_be_len(t.from as nat, 2);
            lemma_be_len(t.to as nat, 2);
            lemma_be_len(t.token as nat, 1);
            lemma_be_len(t.amount as nat, 16);
            lemma_be_len(t.fee as nat, 16);
        },
        FranklinOp::Withdraw(w) => {
            lemma_be_len(w.account as nat, 2);
            lemma_be_len(w.token as nat, 1);
            lemma_be_len(w.amount as nat, 16);
            lemma_be_len(w.fee as nat, 16);
        },
        FranklinOp::Close(c) => {
            lemma_be_len(c.account as nat, 2);
            lemma_be_len(c.token as nat, 1);
            lemma_be_len(c.fee as nat, 16);
        },
        FranklinOp::FullExit(f) => {
            lemma_be_len(f.account as nat, 2);
            lemma_be_len(f.token as nat, 1);
            match f.withdraw_amount {
                Some(a) => { lemma_be_len(a as nat, 16); },
                None => {},
            }
        },
        FranklinOp::ChangePubKeyOffchain(c) => {
            lemma_be_len(c.account as nat, 2);
            lemma_be_len(c.new_pub_key_hash as nat, 8);
        },
    }
}

/// Encodes a ledger operation.
pub fn encode_op(op: &FranklinOp) -> (r: Vec<u8>)
    ensures
        r@ == spec_encode_op(*op),
{
    let mut out: Vec<u8> = Vec::new();
    match op {
        FranklinOp::Noop => {
            out.push(0u8);
        },
        FranklinOp::Deposit(d) => {
            out.push(1u8);
            push_be(&mut out, d.to as u128, 2);
            push_be(&mut out, d.token as u128, 1);
            push_be(&mut out, d.amount, 16);
        },
        FranklinOp::Transfer(t) => {
            out.push(2u8);
            push_be(&mut out, t.from as u128, 2);
            push_be(&mut out, t.to as u128, 2);
            push_be(&mut out, t.token as u128, 1);
            push_be(&mut out, t.amount, 16);
            push_be(&mut out, t.fee, 16);
        },
        FranklinOp::TransferToNew(t) => {
            out.push(3u8);
            push_be(&mut out, t.from as u128, 2);
            push_be(&mut out, t.to as u128, 2);
            push_be(&mut out, t.token as u128, 1);
            push_be(&mut out, t.amount, 16);
            push_be(&mut out, t.fee, 16);
        },
        FranklinOp::Withdraw(w) => {
            out.push(4u8);
            push_be(&mut out, w.account as u128, 2);
            push_be(&mut out, w.token as u128, 1);
            push_be(&mut out, w.amount, 16);
            push_be(&mut out, w.fee, 16);
        },
        FranklinOp::Close(c) => {
            out.push(5u8);
            push_be(&mut out, c.account as u128, 2);
            push_be(&mut out, c.token as u128, 1);
            push_be(&mut out, c.fee, 16);
        },
        FranklinOp::FullExit(f) => {
            out.push(6u8);
            push_be(&mut out, f.account as u128, 2);
            push_be(&mut out, f.token as u128, 1);
            match f.withdraw_amount {
                Some(a) => {
                    out.push(1u8);
                    push_be(&mut out, a, 16);
                },
                None => {
                    out.push(0u8);
                },
            }
        },
        FranklinOp::ChangePubKeyOffchain(c) => {
            out.push(7u8);
            push_be(&mut out, c.account as u128, 2);
            push_be(&mut out, c.new_pub_key_hash as u128, 8);
        },
    }
    proof {
        assert(out@ =~= spec_encode_op(*op));
    }
    out
}

/// The 64-byte public-data chunk of an operation: its encoding, zero-padded.
pub open spec fn spec_chunk(op: FranklinOp) -> Seq<u8> {
    spec_encode_op(op) + Seq::new((CHUNK_BYTES - spec_encode_op(op).len()) as nat, |i: int| 0u8)
}

/// Builds the 64-byte public-data chunk.
pub fn chunk_pubdata(op: &FranklinOp) -> (r: Vec<u8>)
    ensures
        r@ == spec_chunk(*op),
        r@.len() == CHUNK_BYTES,
{
    proof {
        lemma_encode_len(*op);
    }
    let mut out = encode_op(op);
    let ghost enc = out@;
    while out.len() < CHUNK_BYTES
        invariant
            enc.len() <= out@.len() <= CHUNK_BYTES,
            out@ == enc + Seq::new((out@.len() - enc.len()) as nat, |i: int| 0u8),
        decreases CHUNK_BYTES - out@.len(),
    {
        out.push(0u8);
        proof {
            assert(out@ =~= enc + Seq::new((out@.len() - enc.len()) as nat, |i: int| 0u8));
        }
    }
    proof {
        assert(out@ == spec_chunk(*op));
    }
    out
}

/// Packs a raw transaction signature into its serialized form; fails on a
/// signature of the wrong width.
pub fn pack_signature(sig: &Vec<u8>) -> (r: Result<Vec<u8>, ReplayError>)
    ensures
        r is Ok <==> sig@.len() == SIG_LEN,
        match r {
            Ok(v) => v@ == sig@,
            Err(e) => e == ReplayError::SignatureUnpack,
        },
{
    if sig.len() != SIG_LEN {
        return Err(ReplayError::SignatureUnpack);
    }
    let mut out: Vec<u8> = Vec::new();
    let mut i: usize = 0;
    while i < sig.len()
        invariant
            0 <= i <= sig@.len(),
            out@ == sig@.take(i as int),
        decreases sig@.len() - i,
    {
        proof {
            assert(sig@.take(i + 1) =~= sig@.take(i as int).push(sig@[i as int]));
        }
        out.push(sig[i]);
        i = i + 1;
    }
    proof {
        assert(sig@.take(sig@.len() as int) =~= sig@);
    }
    Ok(out)
}

/// Derives the three signature message digests, the packed signature data
/// and the signer-key digest; fails on a malformed signer key.
pub fn prepare_sig_data(sig_packed: &Vec<u8>, tx_bytes: &Vec<u8>, pub_key: &Vec<u8>) -> (r: Result<
    (u64, u64, u64, Vec<u8>, u64),
    ReplayError,
>)
    ensures
        r is Ok <==> pub_key@.len() == PUB_KEY_LEN,
        match r {
            Ok((m1, m2, m3, sd, kd)) => {
                &&& m1 == spec_fold_bytes(SIG_SEED_1, tx_bytes@)
                &&& m2 == spec_fold_bytes(SIG_SEED_2, tx_bytes@)
                &&& m3 == spec_fold_bytes(SIG_SEED_3, tx_bytes@)
                &&& sd@ == sig_packed@
                &&& kd == spec_fold_bytes(KEY_SEED, pub_key@)
            },
            Err(e) => e == ReplayError::SignaturePrep,
        },
{
    if pub_key.len() != PUB_KEY_LEN {
        return Err(ReplayError::SignaturePrep);
    }
    let m1 = fold_bytes(SIG_SEED_1, tx_bytes);
    let m2 = fold_bytes(SIG_SEED_2, tx_bytes);
    let m3 = fold_bytes(SIG_SEED_3, tx_bytes);
    let mut sd: Vec<u8> = Vec::new();
    let mut i: usize = 0;
    while i < sig_packed.len()
        invariant
            0 <= i <= sig_packed@.len(),
            sd@ == sig_packed@.take(i as int),
        decreases sig_packed@.len() - i,
    {
        proof {
            assert(sig_packed@.take(i + 1) =~= sig_packed@.take(i as int).push(sig_packed@[i as int]));
        }
        sd.push(sig_packed[i]);
        i = i + 1;
    }
    proof {
        assert(sig_packed@.take(sig_packed@.len() as int) =~= sig_packed@);
    }
    let kd = fold_bytes(KEY_SEED, pub_key);
    Ok((m1, m2, m3, sd, kd))
}

/// The argument digest of a signed operation: its three message digests,
/// its packed-signature digest and its signer-key digest mixed together.
pub open spec fn spec_sig_args_hash(tx_bytes: Seq<u8>, sig: Seq<u8>, pk: Seq<u8>) -> u64 {
    spec_combine(
        spec_combine(
            spec_combine(spec_fold_bytes(SIG_SEED_1, tx_bytes), spec_fold_bytes(SIG_SEED_2, tx_bytes)),
            spec_fold_bytes(SIG_SEED_3, tx_bytes),
        ),
        spec_combine(spec_fold_bytes(SIG_DATA_SEED, sig), spec_fold_bytes(KEY_SEED, pk)),
    )
}

/// The argument digest any circuit operation carries.
pub open spec fn spec_args_hash(op: FranklinOp) -> u64 {
    match op {
        FranklinOp::Noop => 0,
        FranklinOp::Transfer(t) => spec_sig_args_hash(
            spec_encode_op(op), t.signature.signature@, t.signature.pub_key@,
        ),
        FranklinOp::TransferToNew(t) => spec_sig_args_hash(
            spec_encode_op(op), t.signature.signature@, t.signature.pub_key@,
        ),
        FranklinOp::Withdraw(w) => spec_sig_args_hash(
            spec_encode_op(op), w.signature.signature@, w.signature.pub_key@,
        ),
        FranklinOp::Close(c) => spec_sig_args_hash(
            spec_encode_op(op), c.signature.signature@, c.signature.pub_key@,
        ),
        _ => spec_fold_bytes(OP_SEED, spec_encode_op(op)),
    }
}

/// Which error, if any, processing this operation reports: signature
/// packing is checked before signature data preparation; unsigned
/// operations never fail.
pub open spec fn spec_op_error(op: FranklinOp) -> Option<ReplayError> {
    match op {
        FranklinOp::Transfer(t) => spec_sig_error(t.signature.signature@, t.signature.pub_key@),
        FranklinOp::TransferToNew(t) => spec_sig_error(t.signature.signature@, t.signature.pub_key@),
        FranklinOp::Withdraw(w) => spec_sig_error(w.signature.signature@, w.signature.pub_key@),
        FranklinOp::Close(c) => spec_sig_error(c.signature.signature@, c.signature.pub_key@),
        _ => None,
    }
}

pub open spec fn spec_sig_error(sig: Seq<u8>, pk: Seq<u8>) -> Option<ReplayError> {
    if sig.len() != SIG_LEN {
        Some(ReplayError::SignatureUnpack)
    } else if pk.len() != PUB_KEY_LEN {
        Some(ReplayError::SignaturePrep)
    } else {
        None
    }
}

/// The fee an operation contributes to end-of-block settlement.
pub open spec fn spec_op_fee(op: FranklinOp) -> Option<CollectedFee> {
    match op {
        FranklinOp::Transfer(t) => Some(CollectedFee { token: t.token, amount: t.fee }),
        FranklinOp::TransferToNew(t) => Some(CollectedFee { token: t.token, amount: t.fee }),
        FranklinOp::Withdraw(w) => Some(CollectedFee { token: w.token, amount: w.fee }),
        FranklinOp::Close(c) => Some(CollectedFee { token: c.token, amount: c.fee }),
        _ => None,
    }
}

/// How many circuit operation slots an operation occupies.
pub open spec fn spec_chunks_of(op: FranklinOp) -> nat {
    match op {
        FranklinOp::Noop => 0,
        _ => 1,
    }
}

/// The circuit kind tag of an operation.
pub open spec fn spec_kind_of(op: FranklinOp) -> CircuitOpKind {
    match op {
        FranklinOp::Noop => CircuitOpKind::Noop,
        FranklinOp::Deposit(_) => CircuitOpKind::Deposit,
        FranklinOp::Transfer(_) => CircuitOpKind::Transfer,
        FranklinOp::TransferToNew(_) => CircuitOpKind::TransferToNew,
        FranklinOp::Withdraw(_) => CircuitOpKind::Withdraw,
        FranklinOp::Close(_) => CircuitOpKind::Close,
        FranklinOp::FullExit(_) => CircuitOpKind::FullExit,
        FranklinOp::ChangePubKeyOffchain(_) => CircuitOpKind::ChangePubKey,
    }
}

} // verus!
