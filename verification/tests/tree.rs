use ledger_observer::account::{is_zero, Account};
use ledger_observer::tree::AccountTree;

fn account(balance: u128, nonce: u32) -> Account {
    Account { balance, nonce, pub_key_hash: [9u8; 20], address: [4u8; 20] }
}

#[test]
fn empty_account_has_zero_fields() {
    let empty = Account::new();
    assert_eq!(empty.balance, 0);
    assert_eq!(empty.nonce, 0);
    assert_eq!(empty.pub_key_hash, [0u8; 20]);
    assert_eq!(empty.address, [0u8; 20]);
    assert_eq!(Account::default(), empty);
}

#[test]
fn opened_account_holds_the_payment_and_the_address() {
    let opened = Account::open([7u8; 20], 55);
    assert_eq!(
        opened,
        Account { balance: 55, nonce: 0, pub_key_hash: [0u8; 20], address: [7u8; 20] }
    );
}

#[test]
fn credit_and_debit_change_the_balance_only() {
    let start = account(40, 3);
    assert_eq!(start.credit(2), Account { balance: 42, ..start });
    assert_eq!(start.debit(40), Account { balance: 0, ..start });
    assert_eq!(start.credit(u128::MAX - 40).balance, u128::MAX);
}

#[test]
fn rekey_changes_the_key_hash_only() {
    let start = account(40, 3);
    assert_eq!(start.rekey([1u8; 20]), Account { pub_key_hash: [1u8; 20], ..start });
}

#[test]
fn new_tree_is_empty() {
    let tree = AccountTree::new(24);
    assert_eq!(tree.tree_depth(), 24);
    assert_eq!(tree.len(), 0);
    assert!(!tree.contains(0));
    assert_eq!(tree.get(0), None);
    assert_eq!(tree.leaf_or_empty(0), Account::new());
}

#[test]
fn insert_replaces_the_leaf_unconditionally() {
    let mut tree = AccountTree::new(24);
    tree.insert(5, account(40, 3));
    assert_eq!(tree.get(5), Some(account(40, 3)));
    tree.insert(5, account(1, 0));
    assert_eq!(tree.get(5), Some(account(1, 0)));
    assert_eq!(tree.len(), 1);
    assert_eq!(tree.get(4), None);
}

#[test]
fn inserting_the_same_account_again_changes_nothing() {
    let mut once = AccountTree::new(24);
    once.insert(5, account(40, 3));
    let mut twice = AccountTree::new(24);
    twice.insert(5, account(40, 3));
    twice.insert(5, account(40, 3));
    assert_eq!(once.len(), twice.len());
    assert_eq!(once.get(5), twice.get(5));
}

#[test]
fn address_space_is_two_to_the_depth() {
    let small = AccountTree::new(3);
    assert!(small.in_range(0));
    assert!(small.in_range(7));
    assert!(!small.in_range(8));
    assert!(!small.in_range(u32::MAX));
    let single = AccountTree::new(0);
    assert!(single.in_range(0));
    assert!(!single.in_range(1));
    let usual = AccountTree::new(24);
    assert!(usual.in_range((1 << 24) - 1));
    assert!(!usual.in_range(1 << 24));
    let almost_full = AccountTree::new(31);
    assert!(almost_full.in_range((1 << 31) - 1));
    assert!(!almost_full.in_range(1 << 31));
}

#[test]
fn deep_trees_address_every_identifier() {
    assert!(AccountTree::new(32).in_range(u32::MAX));
    assert!(AccountTree::new(33).in_range(u32::MAX));
    assert!(AccountTree::new(u32::MAX).in_range(u32::MAX));
}

#[test]
fn leaf_of_an_empty_slot_is_the_empty_account() {
    let mut tree = AccountTree::new(4);
    tree.insert(2, account(8, 1));
    assert_eq!(tree.leaf_or_empty(2), account(8, 1));
    assert_eq!(tree.leaf_or_empty(3), Account::new());
}

#[test]
fn only_the_empty_account_is_empty() {
    assert!(Account::new().is_empty());
    assert!(Account::default().is_empty());
    assert!(!Account { balance: 1, ..Account::new() }.is_empty());
    assert!(!Account { nonce: 1, ..Account::new() }.is_empty());
    let mut bytes = [0u8; 20];
    bytes[19] = 1;
    assert!(!Account { pub_key_hash: bytes, ..Account::new() }.is_empty());
    assert!(!Account { address: bytes, ..Account::new() }.is_empty());
    assert!(!Account::open([0u8; 20], 1).is_empty());
    assert!(Account::open([0u8; 20], 0).is_empty());
}

#[test]
fn zero_bytes_are_told_from_others() {
    assert!(is_zero(&[0u8; 20]));
    let mut bytes = [0u8; 20];
    bytes[0] = 1;
    assert!(!is_zero(&bytes));
    bytes[0] = 0;
    bytes[19] = 0xff;
    assert!(!is_zero(&bytes));
    bytes[19] = 0;
    assert!(is_zero(&bytes));
}
