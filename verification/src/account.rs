//! Account leaves: what the account tree stores for one account.

use vstd::prelude::*;

verus! {

broadcast use vstd::array::group_array_axioms;

/// Index of an account's leaf in the account tree.
pub type AccountId = u32;

/// Number of a block of the ledger.
pub type BlockNumber = u32;

/// A 160-bit value: an account address or the hash of a public key.
pub type Bytes20 = [u8; 20];

/// The 160-bit value whose bytes are all zero: no address, no key.
pub open spec fn zero_bytes() -> Bytes20 {
    vstd::array::spec_array_fill_for_copy_type::<u8, 20>(0u8)
}

/// Whether every byte of `bytes` is zero.
pub fn is_zero(bytes: &Bytes20) -> (zero: bool)
    ensures
        zero == (*bytes == zero_bytes()),
{
    let mut i: usize = 0;
    while i < 20
        invariant
            i <= 20,
            forall|j: int| 0 <= j < i ==> bytes[j] == 0,
        decreases 20 - i,
    {
        if bytes[i] != 0 {
            assert(zero_bytes()[i as int] == 0);
            return false;
        }
        i += 1;
    }
    assert(*bytes =~= zero_bytes());
    true
}

/// The state of one account as the tree holds it.
#[derive(Clone, Copy, Debug, PartialEq, Eq)]
pub struct Account {
    /// Funds held by the account.
    pub balance: u128,
    /// Number of transactions the account has authorised.
    pub nonce: u32,
    /// Hash of the public key that may sign for the account.
    pub pub_key_hash: Bytes20,
    /// Address that owns the account.
    pub address: Bytes20,
}

impl Account {
    /// The state of an account that holds nothing and belongs to nobody.
    pub open spec fn empty() -> Account {
        Account { balance: 0, nonce: 0, pub_key_hash: zero_bytes(), address: zero_bytes() }
    }

    /// The state of an account that was just opened for `address` with
    /// `amount` paid in.
    pub open spec fn opened(address: Bytes20, amount: u128) -> Account {
        Account { balance: amount, nonce: 0, pub_key_hash: zero_bytes(), address }
    }

    /// This account with `amount` more in its balance.
    pub open spec fn credited(self, amount: u128) -> Account
        recommends
            self.balance + amount <= u128::MAX,
    {
        Account { balance: (self.balance + amount) as u128, ..self }
    }

    /// This account with `amount` less in its balance.
    pub open spec fn debited(self, amount: u128) -> Account
        recommends
            self.balance >= amount,
    {
        Account { balance: (self.balance - amount) as u128, ..self }
    }

    /// This account with another public-key hash and nothing else changed.
    pub open spec fn rekeyed(self, pub_key_hash: Bytes20) -> Account {
        Account { pub_key_hash, ..self }
    }

    /// An empty account.
    pub fn new() -> (account: Account)
        ensures
            account == Account::empty(),
    {
        Account { balance: 0, nonce: 0, pub_key_hash: [0u8; 20], address: [0u8; 20] }
    }

    /// Whether this is the empty account.
    pub fn is_empty(&self) -> (empty: bool)
        ensures
            empty == (*self == Account::empty()),
    {
        self.balance == 0 && self.nonce == 0 && is_zero(&self.pub_key_hash) && is_zero(
            &self.address,
        )
    }

    /// An account just opened for `address` with `amount` paid in.
    pub fn open(address: Bytes20, amount: u128) -> (account: Account)
        ensures
            account == Account::opened(address, amount),
    {
        Account { balance: amount, nonce: 0, pub_key_hash: [0u8; 20], address }
    }

    /// Adds `amount` to the balance.
    pub fn credit(self, amount: u128) -> (account: Account)
        requires
            self.balance + amount <= u128::MAX,
        ensures
            account == self.credited(amount),
    {
        Account { balance: self.balance + amount, ..self }
    }

    /// Takes `amount` from the balance.
    pub fn debit(self, amount: u128) -> (account: Account)
        requires
            self.balance >= amount,
        ensures
            account == self.debited(amount),
    {
        Account { balance: self.balance - amount, ..self }
    }

    /// Replaces the public-key hash and leaves the rest as it is.
    pub fn rekey(self, pub_key_hash: Bytes20) -> (account: Account)
        ensures
            account == self.rekeyed(pub_key_hash),
    {
        Account { pub_key_hash, ..self }
    }
}

impl Default for Account {
    fn default() -> (account: Account)
        ensures
            account == Account::empty(),
    {
        Account::new()
    }
}

} // verus!
