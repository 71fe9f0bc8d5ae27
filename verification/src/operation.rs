//! Ledger operations and what each of them does to the leaves of the account
//! tree.

use crate::account::{Account, AccountId, Bytes20};
use crate::tree::leaf_at;
use vstd::prelude::*;

verus! {

/// One operation of a block, with the fields needed to change the accounts
/// it touches.
#[derive(Clone, Copy, Debug, PartialEq, Eq)]
pub enum Operation {
    /// Funds arrive from outside the ledger for `account_id`, which is
    /// opened for `address` where its leaf is the empty account.
    Deposit { account_id: AccountId, amount: u128, address: Bytes20 },
    /// Funds move between two existing accounts.
    Transfer { from: AccountId, to: AccountId, amount: u128 },
    /// Funds move to an account that this operation opens at `to`, whose
    /// leaf is the empty account until then.
    TransferToNew { from: AccountId, to: AccountId, amount: u128, to_address: Bytes20 },
    /// Funds leave the ledger.
    Withdraw { account_id: AccountId, amount: u128 },
    /// The account is closed.
    Close { account_id: AccountId },
    /// The owner asked to leave the ledger with everything. The ledger
    /// carried the exit out exactly when it recorded a withdrawn amount.
    FullExit { account_id: AccountId, withdraw_amount: Option<u128> },
    /// The account gets another signing key.
    ChangePubKeyOffchain { account_id: AccountId, new_pub_key_hash: Bytes20 },
    /// A third party forces funds out of `target`.
    ForcedExit { target: AccountId, amount: u128 },
    /// Nothing happens.
    Noop,
}

impl Operation {
    /// Whether a full exit was carried out by the ledger. The flag is what
    /// the operation records, never recomputed from balances.
    pub open spec fn exit_succeeded(withdraw_amount: Option<u128>) -> bool {
        withdraw_amount is Some
    }

    /// Whether the operation fits the leaves it is applied to: every account
    /// it names lies within the tree's address space, an account it opens is
    /// free, no balance is overdrawn and none outgrows 128 bits. A slot that
    /// stores nothing counts as the empty account, and a slot is free where
    /// its leaf is the empty account.
    pub open spec fn well_formed(self, leaves: Map<AccountId, Account>, capacity: nat) -> bool {
        match self {
            Operation::Deposit { account_id, amount, address } => {
                &&& (account_id as nat) < capacity
                &&& leaf_at(leaves, account_id).balance + amount <= u128::MAX
            },
            Operation::Transfer { from, to, amount } => {
                let debited = leaves.insert(from, leaf_at(leaves, from).debited(amount));
                &&& (from as nat) < capacity
                &&& (to as nat) < capacity
                &&& leaf_at(leaves, from).balance >= amount
                &&& leaf_at(debited, to).balance + amount <= u128::MAX
            },
            Operation::TransferToNew { from, to, amount, to_address } => {
                &&& (from as nat) < capacity
                &&& (to as nat) < capacity
                &&& leaf_at(leaves, from).balance >= amount
                &&& leaf_at(leaves, to) == Account::empty()
            },
            Operation::Withdraw { account_id, amount } => {
                &&& (account_id as nat) < capacity
                &&& leaf_at(leaves, account_id).balance >= amount
            },
            Operation::Close { account_id } => (account_id as nat) < capacity,
            Operation::FullExit { account_id, withdraw_amount } => {
                Operation::exit_succeeded(withdraw_amount) ==> (account_id as nat) < capacity
            },
            Operation::ChangePubKeyOffchain { account_id, new_pub_key_hash } => {
                (account_id as nat) < capacity
            },
            Operation::ForcedExit { target, amount } => {
                &&& (target as nat) < capacity
                &&& leaf_at(leaves, target).balance >= amount
            },
            Operation::Noop => true,
        }
    }

    /// The leaves after the operation.
    pub open spec fn apply(self, leaves: Map<AccountId, Account>) -> Map<AccountId, Account> {
        match self {
            Operation::Deposit { account_id, amount, address } => {
                if leaf_at(leaves, account_id) == Account::empty() {
                    leaves.insert(account_id, Account::opened(address, amount))
                } else {
                    leaves.insert(account_id, leaves[account_id].credited(amount))
                }
            },
            Operation::Transfer { from, to, amount } => {
                let debited = leaves.insert(from, leaf_at(leaves, from).debited(amount));
                debited.insert(to, leaf_at(debited, to).credited(amount))
            },
            Operation::TransferToNew { from, to, amount, to_address } => {
                leaves.insert(from, leaf_at(leaves, from).debited(amount)).insert(
                    to,
                    Account::opened(to_address, amount),
                )
            },
            Operation::Withdraw { account_id, amount } => {
                leaves.insert(account_id, leaf_at(leaves, account_id).debited(amount))
            },
            Operation::Close { account_id } => leaves.insert(account_id, Account::empty()),
            Operation::FullExit { account_id, withdraw_amount } => {
                if Operation::exit_succeeded(withdraw_amount) {
                    leaves.insert(account_id, Account::empty())
                } else {
                    leaves
                }
            },
            Operation::ChangePubKeyOffchain { account_id, new_pub_key_hash } => {
                leaves.insert(account_id, leaf_at(leaves, account_id).rekeyed(new_pub_key_hash))
            },
            Operation::ForcedExit { target, amount } => {
                leaves.insert(target, leaf_at(leaves, target).debited(amount))
            },
            Operation::Noop => leaves,
        }
    }
}

/// The leaves after the operations of `ops`, applied in order.
pub open spec fn replay(leaves: Map<AccountId, Account>, ops: Seq<Operation>) -> Map<
    AccountId,
    Account,
>
    decreases ops.len(),
{
    if ops.len() == 0 {
        leaves
    } else {
        ops.last().apply(replay(leaves, ops.drop_last()))
    }
}

/// Whether every operation of `ops` fits the leaves that the operations
/// before it leave behind.
pub open spec fn replayable(leaves: Map<AccountId, Account>, capacity: nat, ops: Seq<Operation>) -> bool
    decreases ops.len(),
{
    if ops.len() == 0 {
        true
    } else {
        &&& replayable(leaves, capacity, ops.drop_last())
        &&& ops.last().well_formed(replay(leaves, ops.drop_last()), capacity)
    }
}

/// Replaying one operation more applies it to what the operations before it
/// left behind.
pub proof fn lemma_replay_step(leaves: Map<AccountId, Account>, ops: Seq<Operation>, i: int)
    requires
        0 <= i < ops.len(),
    ensures
        replay(leaves, ops.take(i + 1)) == ops[i].apply(replay(leaves, ops.take(i))),
{
    assert(ops.take(i + 1).drop_last() == ops.take(i));
    assert(ops.take(i + 1).last() == ops[i]);
}

/// A replayable sequence is replayable up to each of its operations, and each
/// operation fits the leaves that the ones before it leave behind.
pub proof fn lemma_replayable_prefix(
    leaves: Map<AccountId, Account>,
    capacity: nat,
    ops: Seq<Operation>,
    i: int,
)
    requires
        replayable(leaves, capacity, ops),
        0 <= i <= ops.len(),
    ensures
        replayable(leaves, capacity, ops.take(i)),
        i < ops.len() ==> ops[i].well_formed(replay(leaves, ops.take(i)), capacity),
    decreases ops.len(),
{
    if i == ops.len() {
        assert(ops.take(i) == ops);
    } else if i == ops.len() - 1 {
        assert(ops.take(i) == ops.drop_last());
    } else {
        lemma_replayable_prefix(leaves, capacity, ops.drop_last(), i);
        assert(ops.drop_last().take(i) == ops.take(i));
    }
}

/// A replayable prefix followed by an operation that fits is replayable.
pub proof fn lemma_replayable_step(
    leaves: Map<AccountId, Account>,
    capacity: nat,
    ops: Seq<Operation>,
    i: int,
)
    requires
        0 <= i < ops.len(),
        replayable(leaves, capacity, ops.take(i)),
        ops[i].well_formed(replay(leaves, ops.take(i)), capacity),
    ensures
        replayable(leaves, capacity, ops.take(i + 1)),
{
    assert(ops.take(i + 1).drop_last() == ops.take(i));
    assert(ops.take(i + 1).last() == ops[i]);
}

} // verus!
