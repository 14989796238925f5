//! The account tree: a fixed-depth sparse Merkle index from account
//! identifier to account state, with point updates, an authenticated root
//! hash and per-account audit paths.
//!
//! Account identifiers are 16-bit, the tree depth is 16, so every
//! identifier addresses a valid leaf. The tree is modelled as a
//! `Map<u16, AccountModel>`; every operation's contract is stated over
//! that map.

use vstd::prelude::*;
use crate::account::{Account, AccountModel, account_model_wf, spec_default_account, default_account, spec_leaf_hash, leaf_hash};
use crate::hashing::{spec_combine, combine};

verus! {

/// Depth of the account tree; leaves are indexed by 16-bit account ids.
pub const TREE_DEPTH: usize = 16;

/// Hash of an empty leaf.
pub const EMPTY_LEAF: u64 = 0xe117;

/// Powers of two.
pub open spec fn p2(n: nat) -> nat
    decreases n,
{
    if n == 0 { 1 } else { 2 * p2((n - 1) as nat) }
}

pub proof fn lemma_p2_pos(n: nat)
    ensures p2(n) >= 1,
    decreases n,
{
    if n > 0 { lemma_p2_pos((n - 1) as nat); }
}

pub proof fn lemma_p2_mono(a: nat, b: nat)
    requires a <= b,
    ensures p2(a) <= p2(b),
    decreases b,
{
    if a < b {
        lemma_p2_mono(a, (b - 1) as nat);
        lemma_p2_pos((b - 1) as nat);
    }
}

pub proof fn lemma_p2_adds(a: nat, b: nat)
    ensures p2(a + b) == p2(a) * p2(b),
    decreases a,
{
    if a == 0 {
    } else {
        lemma_p2_adds((a - 1) as nat, b);
        assert(p2(a + b) == 2 * p2((a + b - 1) as nat));
        assert(p2(a) == 2 * p2((a - 1) as nat));
        assert(2 * (p2((a - 1) as nat) * p2(b)) == (2 * p2((a - 1) as nat)) * p2(b))
            by (nonlinear_arith);
    }
}

pub proof fn lemma_p2_16()
    ensures p2(16) == 65536,
{
    reveal_with_fuel(p2, 17);
}

/// A key appears at most once in the entry list.
pub open spec fn unique_keys(s: Seq<(u16, Account)>) -> bool {
    forall|i: int, j: int| 0 <= i < j < s.len() ==> s[i].0 != s[j].0
}

/// The map an entry list denotes (later entries win; with unique keys the
/// order is irrelevant).
pub closed spec fn seq_to_map(s: Seq<(u16, Account)>) -> Map<u16, AccountModel>
    decreases s.len(),
{
    if s.len() == 0 {
        Map::empty()
    } else {
        seq_to_map(s.drop_last()).insert(s.last().0, s.last().1@)
    }
}

proof fn lemma_seq_to_map_found(s: Seq<(u16, Account)>, i: int)
    requires
        unique_keys(s),
        0 <= i < s.len(),
    ensures
        seq_to_map(s).contains_key(s[i].0),
        seq_to_map(s)[s[i].0] == s[i].1@,
    decreases s.len(),
{
    if i == s.len() - 1 {
    } else {
        assert(unique_keys(s.drop_last()));
        assert(s.drop_last()[i] == s[i]);
        lemma_seq_to_map_found(s.drop_last(), i);
        assert(s.last().0 != s[i].0);
    }
}

proof fn lemma_seq_to_map_absent(s: Seq<(u16, Account)>, k: u16)
    requires
        forall|i: int| 0 <= i < s.len() ==> s[i].0 != k,
    ensures
        !seq_to_map(s).contains_key(k),
    decreases s.len(),
{
    if s.len() > 0 {
        assert(forall|i: int| 0 <= i < s.drop_last().len() ==> s.drop_last()[i].0 != k);
        lemma_seq_to_map_absent(s.drop_last(), k);
    }
}

proof fn lemma_seq_to_map_remove(s: Seq<(u16, Account)>, i: int)
    requires
        unique_keys(s),
        0 <= i < s.len(),
    ensures
        seq_to_map(s.remove(i)) =~= seq_to_map(s).remove(s[i].0),
    decreases s.len(),
{
    let k = s[i].0;
    if i == s.len() - 1 {
        assert(s.remove(i) =~= s.drop_last());
        assert(forall|j: int| 0 <= j < s.drop_last().len() ==> s.drop_last()[j].0 != k);
        lemma_seq_to_map_absent(s.drop_last(), k);
        assert(seq_to_map(s) == seq_to_map(s.drop_last()).insert(k, s.last().1@));
        assert(seq_to_map(s).remove(k) =~= seq_to_map(s.drop_last()));
    } else {
        let t = s.remove(i);
        assert(t.len() == s.len() - 1);
        assert(t.drop_last() =~= s.drop_last().remove(i));
        assert(t.last() == s.last());
        assert(unique_keys(s.drop_last()));
        assert(s.drop_last()[i] == s[i]);
        lemma_seq_to_map_remove(s.drop_last(), i);
        let lk = s.last().0;
        let lv = s.last().1@;
        assert(lk != k);
        assert(seq_to_map(t) == seq_to_map(t.drop_last()).insert(lk, lv));
        assert(seq_to_map(s.drop_last()).remove(k).insert(lk, lv)
            =~= seq_to_map(s.drop_last()).insert(lk, lv).remove(k));
    }
}

/// The account a map holds for an id, or the fresh-account state.
pub open spec fn spec_get_or_default(m: Map<u16, AccountModel>, id: u16) -> AccountModel {
    if m.contains_key(id) { m[id] } else { spec_default_account() }
}

/// Hash of the all-empty subtree of a given height.
pub open spec fn spec_empty_hash(level: nat) -> u64
    decreases level,
{
    if level == 0 {
        EMPTY_LEAF
    } else {
        spec_combine(spec_empty_hash((level - 1) as nat), spec_empty_hash((level - 1) as nat))
    }
}

/// Hash of the subtree of the given height whose leaves are the ids with
/// the given prefix.
pub open spec fn spec_node_hash(m: Map<u16, AccountModel>, level: nat, prefix: nat) -> u64
    decreases level,
{
    if level == 0 {
        if prefix < 65536 && m.contains_key(prefix as u16) {
            spec_leaf_hash(m[prefix as u16])
        } else {
            EMPTY_LEAF
        }
    } else {
        spec_combine(
            spec_node_hash(m, (level - 1) as nat, 2 * prefix),
            spec_node_hash(m, (level - 1) as nat, 2 * prefix + 1),
        )
    }
}

/// The authenticated root of an account map.
pub open spec fn spec_root(m: Map<u16, AccountModel>) -> u64 {
    spec_node_hash(m, TREE_DEPTH as nat, 0)
}

/// The sibling prefix of an id's path node at a given level.
pub open spec fn spec_sibling(id: u16, level: nat) -> nat {
    let base = (id as nat) / p2(level);
    if base % 2 == 0 { base + 1 } else { (base - 1) as nat }
}

/// The audit path of a leaf: the sibling node hash at each level, leaf first.
pub open spec fn spec_audit_path(m: Map<u16, AccountModel>, id: u16) -> Seq<u64> {
    Seq::new(TREE_DEPTH as nat, |l: int| spec_node_hash(m, l as nat, spec_sibling(id, l as nat)))
}

/// The account tree.
pub struct AccountTree {
    entries: Vec<(u16, Account)>,
}

impl AccountTree {
    /// All stored accounts are well formed and ids are unique.
    pub closed spec fn wf(&self) -> bool {
        &&& unique_keys(self.entries@)
        &&& forall|i: int| 0 <= i < self.entries@.len() ==> account_model_wf(#[trigger] self.entries@[i].1@)
    }

    /// The map this tree denotes.
    pub closed spec fn as_map(&self) -> Map<u16, AccountModel> {
        seq_to_map(self.entries@)
    }

    /// Every account of a well-formed tree's map is well formed.
    pub proof fn lemma_as_map_wf(&self)
        requires self.wf(),
        ensures forall|k: u16| self.as_map().contains_key(k) ==> account_model_wf(#[trigger] self.as_map()[k]),
    {
        assert forall|k: u16| self.as_map().contains_key(k)
            implies account_model_wf(self.as_map()[k]) by {
            if forall|i: int| 0 <= i < self.entries@.len() ==> (#[trigger] self.entries@[i]).0 != k {
                lemma_seq_to_map_absent(self.entries@, k);
            } else {
                let i = choose|i: int| 0 <= i < self.entries@.len() && (#[trigger] self.entries@[i]).0 == k;
                lemma_seq_to_map_found(self.entries@, i);
            }
        }
    }

    /// An empty tree.
    pub fn new() -> (r: AccountTree)
        ensures
            r.wf(),
            r.as_map() == Map::<u16, AccountModel>::empty(),
    {
        AccountTree { entries: Vec::new() }
    }

    /// Removes and returns the account stored under `id`, or the
    /// fresh-account state if none is stored.
    pub fn take_or_default(&mut self, id: u16) -> (r: Account)
        requires
            old(self).wf(),
        ensures
            final(self).wf(),
            final(self).as_map() == old(self).as_map().remove(id),
            r@ == spec_get_or_default(old(self).as_map(), id),
            account_model_wf(r@),
    {
        let n = self.entries.len();
        let mut i: usize = 0;
        while i < n
            invariant
                *self == *old(self),
                n == self.entries@.len(),
                0 <= i <= n,
                self.wf(),
                forall|j: int| 0 <= j < i ==> self.entries@[j].0 != id,
            decreases n - i,
        {
            if self.entries[i].0 == id {
                proof {
                    lemma_seq_to_map_found(self.entries@, i as int);
                    lemma_seq_to_map_remove(self.entries@, i as int);
                }
                let (_, a) = self.entries.remove(i);
                return a;
            }
            i = i + 1;
        }
        proof {
            lemma_seq_to_map_absent(self.entries@, id);
            assert(self.as_map().remove(id) =~= self.as_map());
        }
        default_account()
    }

    /// Stores `account` under `id`, replacing any previous state.
    pub fn insert(&mut self, id: u16, account: Account)
        requires
            old(self).wf(),
            account_model_wf(account@),
        ensures
            final(self).wf(),
            final(self).as_map() == old(self).as_map().insert(id, account@),
    {
        let ghost old_map = self.as_map();
        let taken = self.take_or_default(id);
        proof {
            assert(self.entries@.push((id, account)).drop_last() =~= self.entries@);
            assert(forall|j: int| 0 <= j < self.entries@.len()
                ==> (#[trigger] self.entries@[j]).0 != id) by {
                if exists|j: int| 0 <= j < self.entries@.len() && (#[trigger] self.entries@[j]).0 == id {
                    let j = choose|j: int| 0 <= j < self.entries@.len() && (#[trigger] self.entries@[j]).0 == id;
                    lemma_seq_to_map_found(self.entries@, j);
                }
            }
        }
        self.entries.push((id, account));
        proof {
            assert(self.as_map() =~= old_map.insert(id, account@));
        }
    }

    /// Looks the account up without removing it.
    pub fn get_ref(&self, id: u16) -> (r: Option<&Account>)
        requires
            self.wf(),
        ensures
            match r {
                Some(a) => self.as_map().contains_key(id) && a@ == self.as_map()[id],
                None => !self.as_map().contains_key(id),
            },
    {
        let n = self.entries.len();
        let mut i: usize = 0;
        while i < n
            invariant
                n == self.entries@.len(),
                0 <= i <= n,
                self.wf(),
                forall|j: int| 0 <= j < i ==> self.entries@[j].0 != id,
            decreases n - i,
        {
            if self.entries[i].0 == id {
                proof {
                    lemma_seq_to_map_found(self.entries@, i as int);
                }
                return Some(&self.entries[i].1);
            }
            i = i + 1;
        }
        proof {
            lemma_seq_to_map_absent(self.entries@, id);
        }
        None
    }

    /// Hash of the empty subtree of height `level`.
    fn empty_hash(level: usize) -> (r: u64)
        requires level <= TREE_DEPTH,
        ensures r == spec_empty_hash(level as nat),
        decreases level,
    {
        if level == 0 {
            EMPTY_LEAF
        } else {
            let h = Self::empty_hash(level - 1);
            combine(h, h)
        }
    }

    /// Hash of the subtree of height `level` above prefix `prefix`.
    fn node_hash(&self, level: usize, prefix: u32) -> (r: u64)
        requires
            self.wf(),
            level <= TREE_DEPTH,
            (prefix as nat) < p2((TREE_DEPTH - level) as nat),
        ensures
            r == spec_node_hash(self.as_map(), level as nat, prefix as nat),
        decreases level,
    {
        if level == 0 {
            proof {
                lemma_p2_16();
            }
            match self.get_ref(prefix as u16) {
                Some(a) => leaf_hash(a),
                None => EMPTY_LEAF,
            }
        } else {
            proof {
                lemma_p2_mono((TREE_DEPTH - level) as nat, TREE_DEPTH as nat);
                lemma_p2_16();
                assert(p2((TREE_DEPTH - level + 1) as nat) == 2 * p2((TREE_DEPTH - level) as nat));
            }
            let left = self.node_hash(level - 1, 2 * prefix);
            let right = self.node_hash(level - 1, 2 * prefix + 1);
            combine(left, right)
        }
    }

    /// The authenticated root hash of the tree.
    pub fn root_hash(&self) -> (r: u64)
        requires
            self.wf(),
        ensures
            r == spec_root(self.as_map()),
    {
        proof {
            assert(p2((TREE_DEPTH - TREE_DEPTH) as nat) == 1);
        }
        self.node_hash(TREE_DEPTH, 0)
    }

    /// The audit path of the leaf `id`: sibling hashes, leaf level first.
    pub fn audit_path(&self, id: u16) -> (r: Vec<u64>)
        requires
            self.wf(),
        ensures
            r@ == spec_audit_path(self.as_map(), id),
            r@.len() == TREE_DEPTH,
    {
        let mut r: Vec<u64> = Vec::new();
        let mut level: usize = 0;
        let mut p: u32 = 1;
        while level < TREE_DEPTH
            invariant
                self.wf(),
                0 <= level <= TREE_DEPTH,
                p as nat == p2(level as nat),
                r@.len() == level,
                forall|j: int| 0 <= j < level
                    ==> r@[j] == spec_node_hash(self.as_map(), j as nat, spec_sibling(id, j as nat)),
            decreases TREE_DEPTH - level,
        {
            proof {
                lemma_p2_pos(level as nat);
                lemma_p2_16();
                lemma_p2_adds(level as nat, (TREE_DEPTH - level) as nat);
            }
            let base: u32 = (id as u32) / p;
            proof {
                let b = p2(level as nat) as int;
                let bound = p2((TREE_DEPTH - level) as nat) as int;
                assert((id as int) < b * bound);
                assert(b * ((id as int) / b) <= id as int) by {
                    assert((id as int) == b * ((id as int) / b) + (id as int) % b);
                }
                assert(b * ((id as int) / b) < b * bound);
                assert(((id as int) / b) < bound) by (nonlinear_arith)
                    requires b * ((id as int) / b) < b * bound, b > 0;
                assert(base as int == (id as int) / b);
                assert(p2(((TREE_DEPTH - level) - 1) as nat + 1) == 2 * p2(((TREE_DEPTH - level) - 1) as nat));
            }
            let sib: u32 = if base % 2 == 0 {
                proof {
                    let bound = p2((TREE_DEPTH - level) as nat) as int;
                    assert(bound % 2 == 0);
                    assert((base as int + 1) % 2 == 1int);
                    assert(base as int + 1 != bound);
                }
                base + 1
            } else {
                base - 1
            };
            let h = self.node_hash(level, sib);
            r.push(h);
            proof {
                assert(sib as nat == spec_sibling(id, level as nat));
            }
            proof {
                lemma_p2_mono((level + 1) as nat, TREE_DEPTH as nat);
                assert(p2((level + 1) as nat) == 2 * p2(level as nat));
            }
            level = level + 1;
            p = p * 2;
        }
        proof {
            assert(r@ =~= spec_audit_path(self.as_map(), id));
        }
        r
    }
}

} // verus!
