//! Replaying operations into the account tree.

use crate::account::{Account, AccountId};
use crate::operation::Operation;
use crate::tree::{leaf_at, AccountTree};
use vstd::prelude::*;

verus! {

impl AccountTree {
    /// Whether `op` fits the tree as it stands.
    pub fn accepts(&self, op: &Operation) -> (fits: bool)
        ensures
            fits == op.well_formed(self@, self.capacity()),
    {
        match *op {
            Operation::Deposit { account_id, amount, address } => {
                self.in_range(account_id) && self.leaf_or_empty(account_id).balance <= u128::MAX
                    - amount
            },
            Operation::Transfer { from, to, amount } => {
                self.in_range(from) && self.in_range(to) && self.leaf_or_empty(from).balance
                    >= amount && (to == from || self.leaf_or_empty(to).balance <= u128::MAX
                    - amount)
            },
            Operation::TransferToNew { from, to, amount, to_address } => {
                self.in_range(from) && self.in_range(to) && self.leaf_or_empty(from).balance
                    >= amount && self.leaf_or_empty(to).is_empty()
            },
            Operation::Withdraw { account_id, amount } => {
                self.in_range(account_id) && self.leaf_or_empty(account_id).balance >= amount
            },
            Operation::Close { account_id } => self.in_range(account_id),
            Operation::FullExit { account_id, withdraw_amount } => {
                withdraw_amount.is_none() || self.in_range(account_id)
            },
            Operation::ChangePubKeyOffchain { account_id, new_pub_key_hash } => {
                self.in_range(account_id)
            },
            Operation::ForcedExit { target, amount } => {
                self.in_range(target) && self.leaf_or_empty(target).balance >= amount
            },
            Operation::Noop => true,
        }
    }

    /// Adds `amount` to the balance of the leaf at `id`.
    fn credit_leaf(&mut self, id: AccountId, amount: u128)
        requires
            (id as nat) < old(self).capacity(),
            old(self).leaf(id).balance + amount <= u128::MAX,
        ensures
            final(self)@ == old(self)@.insert(id, leaf_at(old(self)@, id).credited(amount)),
            final(self).depth() == old(self).depth(),
    {
        let leaf = self.leaf_or_empty(id);
        self.insert(id, leaf.credit(amount));
    }

    /// Takes `amount` from the balance of the leaf at `id`.
    fn debit_leaf(&mut self, id: AccountId, amount: u128)
        requires
            (id as nat) < old(self).capacity(),
            old(self).leaf(id).balance >= amount,
        ensures
            final(self)@ == old(self)@.insert(id, leaf_at(old(self)@, id).debited(amount)),
            final(self).depth() == old(self).depth(),
    {
        let leaf = self.leaf_or_empty(id);
        self.insert(id, leaf.debit(amount));
    }

    /// Applies one operation to the tree.
    pub fn apply_op(&mut self, op: &Operation)
        requires
            op.well_formed(old(self)@, old(self).capacity()),
        ensures
            final(self)@ == op.apply(old(self)@),
            final(self).depth() == old(self).depth(),
    {
        match *op {
            Operation::Deposit { account_id, amount, address } => {
                if self.leaf_or_empty(account_id).is_empty() {
                    self.insert(account_id, Account::open(address, amount));
                } else {
                    self.credit_leaf(account_id, amount);
                }
            },
            Operation::Transfer { from, to, amount } => {
                self.debit_leaf(from, amount);
                self.credit_leaf(to, amount);
            },
            Operation::TransferToNew { from, to, amount, to_address } => {
                self.debit_leaf(from, amount);
                self.insert(to, Account::open(to_address, amount));
            },
            Operation::Withdraw { account_id, amount } => {
                self.debit_leaf(account_id, amount);
            },
            Operation::Close { account_id } => {
                self.insert(account_id, Account::new());
            },
            Operation::FullExit { account_id, withdraw_amount } => {
                let success = withdraw_amount.is_some();
                if success {
                    self.insert(account_id, Account::new());
                }
            },
            Operation::ChangePubKeyOffchain { account_id, new_pub_key_hash } => {
                let leaf = self.leaf_or_empty(account_id);
                self.insert(account_id, leaf.rekey(new_pub_key_hash));
            },
            Operation::ForcedExit { target, amount } => {
                self.debit_leaf(target, amount);
            },
            Operation::Noop => {},
        }
    }
}

} // verus!
