//! The observed state: the account tree with the number of the block it
//! stands at, and the block that the state keeper's checkpoint stands at.

use crate::account::{Account, AccountId, BlockNumber};
use crate::operation::{
    lemma_replay_step, lemma_replayable_prefix, lemma_replayable_step, replay, replayable,
    Operation,
};
use crate::tree::AccountTree;
use vstd::prelude::*;

verus! {

/// The leaves after every account of a snapshot has been stored, in order. A
/// later entry for an identifier replaces an earlier one.
pub open spec fn load(leaves: Map<AccountId, Account>, accounts: Seq<(AccountId, Account)>) -> Map<
    AccountId,
    Account,
>
    decreases accounts.len(),
{
    if accounts.len() == 0 {
        leaves
    } else {
        load(leaves, accounts.drop_last()).insert(accounts.last().0, accounts.last().1)
    }
}

/// Whether every account of a snapshot lies within an address space of
/// `capacity` leaves.
pub open spec fn loadable(capacity: nat, accounts: Seq<(AccountId, Account)>) -> bool {
    forall|i: int| 0 <= i < accounts.len() ==> ((#[trigger] accounts[i]).0 as nat) < capacity
}

/// Where a replay stopped: the position, within the operations handed in, of
/// the first one that did not fit the tree.
#[derive(Clone, Copy, Debug, PartialEq, Eq)]
pub struct Malformed {
    pub index: usize,
}

/// The state being observed, to be handed to the node's other parts when it
/// takes the lead.
#[derive(Debug)]
pub struct ObservedState {
    /// Accounts as of the verified block `circuit_tree_block`.
    pub circuit_acc_tree: AccountTree,
    /// Block whose operations were the last to be replayed into
    /// `circuit_acc_tree`.
    pub circuit_tree_block: BlockNumber,
    /// Block that the state keeper's checkpoint was last brought up to.
    pub state_keeper_block: BlockNumber,
}

impl ObservedState {
    /// A state that has seen nothing: an empty tree of the given depth, both
    /// block numbers at zero.
    pub fn new(tree_depth: u32) -> (state: ObservedState)
        ensures
            state.circuit_acc_tree@ == Map::<AccountId, Account>::empty(),
            state.circuit_acc_tree.depth() == tree_depth,
            state.circuit_tree_block == 0,
            state.state_keeper_block == 0,
    {
        ObservedState {
            circuit_acc_tree: AccountTree::new(tree_depth),
            circuit_tree_block: 0,
            state_keeper_block: 0,
        }
    }

    /// The position of the first account of a snapshot that lies outside the
    /// tree's address space, if there is one.
    pub fn first_out_of_range(&self, accounts: &Vec<(AccountId, Account)>) -> (found: Option<usize>)
        ensures
            found is None <==> loadable(self.circuit_acc_tree.capacity(), accounts@),
            found matches Some(i) ==> {
                &&& i < accounts.len()
                &&& (accounts[i as int].0 as nat) >= self.circuit_acc_tree.capacity()
                &&& loadable(self.circuit_acc_tree.capacity(), accounts@.take(i as int))
            },
    {
        let mut i: usize = 0;
        while i < accounts.len()
            invariant
                i <= accounts.len(),
                loadable(self.circuit_acc_tree.capacity(), accounts@.take(i as int)),
            decreases accounts.len() - i,
        {
            if !self.circuit_acc_tree.in_range(accounts[i].0) {
                return Some(i);
            }
            assert forall|j: int| 0 <= j < i + 1 implies ((#[trigger] accounts@.take(i + 1)[j]).0
                as nat) < self.circuit_acc_tree.capacity() by {
                if j < i {
                    assert(accounts@.take(i + 1)[j] == accounts@.take(i as int)[j]);
                }
            }
            i += 1;
        }
        assert(accounts@.take(i as int) == accounts@);
        None
    }

    /// Stores the verified snapshot taken at `block_number` in the tree.
    pub fn init_circuit_tree(
        &mut self,
        block_number: BlockNumber,
        accounts: Vec<(AccountId, Account)>,
    )
        requires
            loadable(old(self).circuit_acc_tree.capacity(), accounts@),
        ensures
            final(self).circuit_acc_tree@ == load(old(self).circuit_acc_tree@, accounts@),
            final(self).circuit_acc_tree.depth() == old(self).circuit_acc_tree.depth(),
            final(self).circuit_tree_block == block_number,
            final(self).state_keeper_block == old(self).state_keeper_block,
    {
        let mut i: usize = 0;
        while i < accounts.len()
            invariant
                i <= accounts.len(),
                loadable(self.circuit_acc_tree.capacity(), accounts@),
                self.circuit_acc_tree@ == load(old(self).circuit_acc_tree@, accounts@.take(i as int)),
                self.circuit_acc_tree.depth() == old(self).circuit_acc_tree.depth(),
                self.circuit_tree_block == old(self).circuit_tree_block,
                self.state_keeper_block == old(self).state_keeper_block,
            decreases accounts.len() - i,
        {
            let (account_id, account) = accounts[i];
            self.circuit_acc_tree.insert(account_id, account);
            proof {
                assert(accounts@.take(i + 1).drop_last() == accounts@.take(i as int));
                assert(accounts@.take(i + 1).last() == accounts@[i as int]);
            }
            i += 1;
        }
        assert(accounts@.take(i as int) == accounts@);
        self.circuit_tree_block = block_number;
    }

    /// Replays the operations of one block into the tree, in order.
    pub fn apply(&mut self, ops: Vec<Operation>)
        requires
            replayable(old(self).circuit_acc_tree@, old(self).circuit_acc_tree.capacity(), ops@),
        ensures
            final(self).circuit_acc_tree@ == replay(old(self).circuit_acc_tree@, ops@),
            final(self).circuit_acc_tree.depth() == old(self).circuit_acc_tree.depth(),
            final(self).circuit_tree_block == old(self).circuit_tree_block,
            final(self).state_keeper_block == old(self).state_keeper_block,
    {
        let mut i: usize = 0;
        while i < ops.len()
            invariant
                i <= ops.len(),
                replayable(old(self).circuit_acc_tree@, old(self).circuit_acc_tree.capacity(), ops@),
                self.circuit_acc_tree@ == replay(old(self).circuit_acc_tree@, ops@.take(i as int)),
                self.circuit_acc_tree.depth() == old(self).circuit_acc_tree.depth(),
                self.circuit_tree_block == old(self).circuit_tree_block,
                self.state_keeper_block == old(self).state_keeper_block,
            decreases ops.len() - i,
        {
            proof {
                lemma_replayable_prefix(
                    old(self).circuit_acc_tree@,
                    old(self).circuit_acc_tree.capacity(),
                    ops@,
                    i as int,
                );
                lemma_replay_step(old(self).circuit_acc_tree@, ops@, i as int);
            }
            self.circuit_acc_tree.apply_op(&ops[i]);
            i += 1;
        }
        assert(ops@.take(i as int) == ops@);
    }

    /// Replays the operations of one block into the tree, in order, as far
    /// as they fit. It stops before the first operation that does not fit
    /// the tree and says where.
    pub fn try_apply(&mut self, ops: &Vec<Operation>) -> (done: Result<(), Malformed>)
        ensures
            final(self).circuit_acc_tree.depth() == old(self).circuit_acc_tree.depth(),
            final(self).circuit_tree_block == old(self).circuit_tree_block,
            final(self).state_keeper_block == old(self).state_keeper_block,
            done is Ok <==> replayable(
                old(self).circuit_acc_tree@,
                old(self).circuit_acc_tree.capacity(),
                ops@,
            ),
            done is Ok ==> final(self).circuit_acc_tree@ == replay(old(self).circuit_acc_tree@, ops@),
            done matches Err(stop) ==> {
                &&& stop.index < ops.len()
                &&& replayable(
                    old(self).circuit_acc_tree@,
                    old(self).circuit_acc_tree.capacity(),
                    ops@.take(stop.index as int),
                )
                &&& !ops[stop.index as int].well_formed(
                    replay(old(self).circuit_acc_tree@, ops@.take(stop.index as int)),
                    old(self).circuit_acc_tree.capacity(),
                )
                &&& final(self).circuit_acc_tree@ == replay(
                    old(self).circuit_acc_tree@,
                    ops@.take(stop.index as int),
                )
            },
    {
        let mut i: usize = 0;
        while i < ops.len()
            invariant
                i <= ops.len(),
                replayable(
                    old(self).circuit_acc_tree@,
                    old(self).circuit_acc_tree.capacity(),
                    ops@.take(i as int),
                ),
                self.circuit_acc_tree@ == replay(old(self).circuit_acc_tree@, ops@.take(i as int)),
                self.circuit_acc_tree.depth() == old(self).circuit_acc_tree.depth(),
                self.circuit_tree_block == old(self).circuit_tree_block,
                self.state_keeper_block == old(self).state_keeper_block,
            decreases ops.len() - i,
        {
            if !self.circuit_acc_tree.accepts(&ops[i]) {
                proof {
                    if replayable(
                        old(self).circuit_acc_tree@,
                        old(self).circuit_acc_tree.capacity(),
                        ops@,
                    ) {
                        lemma_replayable_prefix(
                            old(self).circuit_acc_tree@,
                            old(self).circuit_acc_tree.capacity(),
                            ops@,
                            i as int,
                        );
                    }
                }
                return Err(Malformed { index: i });
            }
            proof {
                lemma_replayable_step(
                    old(self).circuit_acc_tree@,
                    old(self).circuit_acc_tree.capacity(),
                    ops@,
                    i as int,
                );
                lemma_replay_step(old(self).circuit_acc_tree@, ops@, i as int);
            }
            self.circuit_acc_tree.apply_op(&ops[i]);
            i += 1;
        }
        assert(ops@.take(i as int) == ops@);
        Ok(())
    }
}

} // verus!
