//! Account state: per-token balances, a nonce, and a public-key hash.

use vstd::prelude::*;
use crate::hashing::{spec_combine, spec_combine_wide, combine, combine_wide, MODULUS};

verus! {

/// Number of token balance slots every account carries; token identifiers
/// are bytes, so every token id indexes a valid slot.
pub const TOTAL_TOKENS: usize = 256;

/// Seed for the balance-vector fold inside a leaf hash.
pub const BALANCE_SEED: u64 = 0x0b_a1a5;

/// One account's state as stored in the account tree.
pub struct Account {
    pub balances: Vec<u128>,
    pub nonce: u32,
    pub pub_key_hash: u64,
}

/// Mathematical model of an account.
pub ghost struct AccountModel {
    pub balances: Seq<u128>,
    pub nonce: u32,
    pub pub_key_hash: u64,
}

impl View for Account {
    type V = AccountModel;

    open spec fn view(&self) -> AccountModel {
        AccountModel { balances: self.balances@, nonce: self.nonce, pub_key_hash: self.pub_key_hash }
    }
}

/// A well-formed account model has exactly one balance slot per token.
pub open spec fn account_model_wf(a: AccountModel) -> bool {
    a.balances.len() == TOTAL_TOKENS
}

/// The state a fresh (never touched) account has: all balances zero.
pub open spec fn spec_default_account() -> AccountModel {
    AccountModel { balances: Seq::new(TOTAL_TOKENS as nat, |i: int| 0u128), nonce: 0, pub_key_hash: 0 }
}

/// Builds the fresh-account state.
pub fn default_account() -> (r: Account)
    ensures
        r@ == spec_default_account(),
        account_model_wf(r@),
{
    let mut balances: Vec<u128> = Vec::new();
    let mut i: usize = 0;
    while i < TOTAL_TOKENS
        invariant
            0 <= i <= TOTAL_TOKENS,
            balances@.len() == i,
            forall|j: int| 0 <= j < i ==> balances@[j] == 0u128,
        decreases TOTAL_TOKENS - i,
    {
        balances.push(0u128);
        i = i + 1;
    }
    let r = Account { balances, nonce: 0, pub_key_hash: 0 };
    proof {
        assert(r@.balances =~= spec_default_account().balances);
    }
    r
}

/// Copies a balance vector (balances are plain values, so a copy is element-wise).
pub fn copy_balances(v: &Vec<u128>) -> (r: Vec<u128>)
    ensures
        r@ == v@,
{
    let mut r: Vec<u128> = Vec::new();
    let mut i: usize = 0;
    while i < v.len()
        invariant
            0 <= i <= v@.len(),
            r@ == v@.take(i as int),
        decreases v@.len() - i,
    {
        proof {
            assert(v@.take(i + 1) =~= v@.take(i as int).push(v@[i as int]));
        }
        r.push(v[i]);
        i = i + 1;
    }
    proof {
        assert(v@.take(v@.len() as int) =~= v@);
    }
    r
}

/// What a balance-vector fold hashes to.
pub open spec fn spec_fold_balances(s: Seq<u128>) -> u64
    decreases s.len(),
{
    if s.len() == 0 {
        BALANCE_SEED
    } else {
        spec_combine_wide(spec_fold_balances(s.drop_last()), s.last())
    }
}

/// The leaf hash of an account: balances fold, then nonce, then key hash.
pub open spec fn spec_leaf_hash(a: AccountModel) -> u64 {
    spec_combine(spec_combine(spec_fold_balances(a.balances), a.nonce as u64), a.pub_key_hash)
}

/// Hashes an account into its tree leaf value.
pub fn leaf_hash(a: &Account) -> (r: u64)
    ensures
        r == spec_leaf_hash(a@),
        r < MODULUS,
{
    let mut h: u64 = BALANCE_SEED;
    let mut i: usize = 0;
    while i < a.balances.len()
        invariant
            0 <= i <= a.balances@.len(),
            h == spec_fold_balances(a.balances@.take(i as int)),
        decreases a.balances@.len() - i,
    {
        proof {
            assert(a.balances@.take(i + 1).drop_last() =~= a.balances@.take(i as int));
            assert(a.balances@.take(i + 1).last() == a.balances@[i as int]);
        }
        h = combine_wide(h, a.balances[i]);
        i = i + 1;
    }
    proof {
        assert(a.balances@.take(a.balances@.len() as int) =~= a.balances@);
    }
    combine(combine(h, a.nonce as u64), a.pub_key_hash)
}

} // verus!
