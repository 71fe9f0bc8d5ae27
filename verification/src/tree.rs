//! The account tree: a sparse map from account identifiers to leaves, with an
//! address space fixed by the tree's depth.

use crate::account::{Account, AccountId};
use std::collections::HashMap;
use vstd::arithmetic::power2::{lemma2_to64, lemma_pow2_strictly_increases, pow2};
use vstd::bits::lemma_u64_shl_is_mul;
use vstd::prelude::*;

verus! {

broadcast use vstd::std_specs::hash::group_hash_axioms;

/// Number of leaves that a tree of the given depth can address.
pub open spec fn capacity_of(depth: u32) -> nat {
    pow2(depth as nat)
}

/// The leaf at `id` among `leaves`: what is stored there, or the empty
/// account where nothing is.
pub open spec fn leaf_at(leaves: Map<AccountId, Account>, id: AccountId) -> Account {
    if leaves.contains_key(id) {
        leaves[id]
    } else {
        Account::empty()
    }
}

/// A sparse tree of account leaves.
///
/// Every stored leaf sits at an identifier below the tree's capacity. A slot
/// that stores nothing stands for the empty account.
#[derive(Debug)]
pub struct AccountTree {
    depth: u32,
    items: HashMap<AccountId, Account>,
}

impl View for AccountTree {
    type V = Map<AccountId, Account>;

    /// The stored leaves, by account identifier.
    closed spec fn view(&self) -> Map<AccountId, Account> {
        self.items@
    }
}

impl AccountTree {
    #[verifier::type_invariant]
    spec fn stored_in_range(self) -> bool {
        forall|id: AccountId| #[trigger] self.items@.contains_key(id) ==> (id as nat) < capacity_of(self.depth)
    }

    /// Depth the tree was created with.
    pub closed spec fn depth(self) -> u32 {
        self.depth
    }

    /// Number of leaves the tree can address: two to the power of its depth.
    pub open spec fn capacity(self) -> nat {
        capacity_of(self.depth())
    }

    /// The leaf at `id`: what is stored there, or the empty account.
    pub open spec fn leaf(self, id: AccountId) -> Account {
        leaf_at(self@, id)
    }

    /// An empty tree of the given depth.
    pub fn new(depth: u32) -> (tree: AccountTree)
        ensures
            tree@ == Map::<AccountId, Account>::empty(),
            tree.depth() == depth,
    {
        AccountTree { depth, items: HashMap::new() }
    }

    /// The depth the tree was created with.
    pub fn tree_depth(&self) -> (depth: u32)
        ensures
            depth == self.depth(),
    {
        self.depth
    }

    /// Whether `id` lies within the tree's address space.
    pub fn in_range(&self, id: AccountId) -> (fits: bool)
        ensures
            fits == ((id as nat) < self.capacity()),
    {
        if self.depth >= 32 {
            proof {
                lemma2_to64();
                if self.depth > 32 {
                    lemma_pow2_strictly_increases(32, self.depth as nat);
                }
            }
            true
        } else {
            let shift: u64 = self.depth as u64;
            proof {
                lemma2_to64();
                lemma_pow2_strictly_increases(shift as nat, 32);
                lemma_u64_shl_is_mul(1u64, shift);
            }
            let limit: u64 = 1u64 << shift;
            (id as u64) < limit
        }
    }

    /// Number of stored leaves.
    pub fn len(&self) -> (count: usize)
        ensures
            count == self@.len(),
    {
        self.items.len()
    }

    /// Whether a leaf is stored at `id`. A stored leaf lies within the
    /// tree's address space.
    pub fn contains(&self, id: AccountId) -> (stored: bool)
        ensures
            stored == self@.contains_key(id),
            stored ==> (id as nat) < self.capacity(),
    {
        proof {
            use_type_invariant(self);
        }
        self.items.contains_key(&id)
    }

    /// The leaf stored at `id`, if any. A stored leaf lies within the tree's
    /// address space.
    pub fn get(&self, id: AccountId) -> (found: Option<Account>)
        ensures
            found == (if self@.contains_key(id) {
                Some(self@[id])
            } else {
                None
            }),
            found is Some ==> (id as nat) < self.capacity(),
    {
        proof {
            use_type_invariant(self);
        }
        match self.items.get(&id) {
            Some(account) => Some(*account),
            None => None,
        }
    }

    /// The leaf at `id`: what is stored there, or the empty account.
    pub fn leaf_or_empty(&self, id: AccountId) -> (account: Account)
        ensures
            account == self.leaf(id),
    {
        match self.items.get(&id) {
            Some(account) => *account,
            None => Account::new(),
        }
    }

    /// Replaces the leaf at `id`, whatever was stored there.
    pub fn insert(&mut self, id: AccountId, account: Account)
        requires
            (id as nat) < old(self).capacity(),
        ensures
            final(self)@ == old(self)@.insert(id, account),
            final(self).depth() == old(self).depth(),
    {
        proof {
            use_type_invariant(&*self);
        }
        // The map is taken out while it grows, so that the tree never holds
        // a half-updated map.
        let mut items: HashMap<AccountId, Account> = HashMap::new();
        std::mem::swap(&mut self.items, &mut items);
        items.insert(id, account);
        self.items = items;
    }
}

} // verus!
