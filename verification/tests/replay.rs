use ledger_observer::account::Account;
use ledger_observer::observer::{Malformed, ObservedState};
use ledger_observer::operation::Operation;
use ledger_observer::tree::AccountTree;

const ALICE: [u8; 20] = [0xa1; 20];
const BOB: [u8; 20] = [0xb0; 20];
const KEY: [u8; 20] = [0x33; 20];

fn account(balance: u128, nonce: u32) -> Account {
    Account { balance, nonce, pub_key_hash: KEY, address: ALICE }
}

fn tree_with(accounts: &[(u32, Account)]) -> AccountTree {
    let mut tree = AccountTree::new(24);
    for (id, account) in accounts {
        tree.insert(*id, *account);
    }
    tree
}

fn state_with(accounts: &[(u32, Account)]) -> ObservedState {
    let mut state = ObservedState::new(24);
    state.init_circuit_tree(0, accounts.to_vec());
    state
}

fn leaves(tree: &AccountTree, ids: &[u32]) -> Vec<Option<Account>> {
    ids.iter().map(|id| tree.get(*id)).collect()
}

#[test]
fn close_resets_the_leaf_to_the_empty_account() {
    let mut tree = tree_with(&[(5, account(40, 3))]);
    let close = Operation::Close { account_id: 5 };
    assert!(tree.accepts(&close));
    tree.apply_op(&close);
    assert_eq!(tree.get(5), Some(Account::default()));
    assert_eq!(tree.len(), 1);
}

#[test]
fn rejected_full_exit_leaves_the_leaf_unchanged() {
    let before = account(40, 3);
    let mut tree = tree_with(&[(5, before)]);
    let exit = Operation::FullExit { account_id: 5, withdraw_amount: None };
    assert!(tree.accepts(&exit));
    tree.apply_op(&exit);
    assert_eq!(tree.get(5), Some(before));
    assert_eq!(tree.len(), 1);
}

#[test]
fn rejected_full_exit_of_an_unknown_account_stores_nothing() {
    let mut tree = AccountTree::new(2);
    let exit = Operation::FullExit { account_id: 900, withdraw_amount: None };
    assert!(tree.accepts(&exit));
    tree.apply_op(&exit);
    assert_eq!(tree.len(), 0);
}

#[test]
fn successful_full_exit_zeroes_the_leaf() {
    let mut tree = tree_with(&[(5, account(40, 3)), (6, account(1, 1))]);
    let exit = Operation::FullExit { account_id: 5, withdraw_amount: Some(40) };
    assert!(tree.accepts(&exit));
    tree.apply_op(&exit);
    assert_eq!(tree.get(5), Some(Account::default()));
    assert_eq!(tree.get(6), Some(account(1, 1)));
}

#[test]
fn full_exit_trusts_the_recorded_flag_not_the_amount() {
    let mut tree = tree_with(&[(5, account(40, 3))]);
    let exit = Operation::FullExit { account_id: 5, withdraw_amount: Some(0) };
    tree.apply_op(&exit);
    assert_eq!(tree.get(5), Some(Account::default()));
}

#[test]
fn deposit_credits_an_existing_leaf() {
    let mut tree = tree_with(&[(2, account(30, 1))]);
    let deposit = Operation::Deposit { account_id: 2, amount: 50, address: BOB };
    assert!(tree.accepts(&deposit));
    tree.apply_op(&deposit);
    assert_eq!(tree.get(2), Some(account(80, 1)));
}

#[test]
fn deposit_creates_an_absent_leaf() {
    let mut tree = AccountTree::new(24);
    let deposit = Operation::Deposit { account_id: 2, amount: 50, address: BOB };
    assert!(tree.accepts(&deposit));
    tree.apply_op(&deposit);
    assert_eq!(
        tree.get(2),
        Some(Account { balance: 50, nonce: 0, pub_key_hash: [0u8; 20], address: BOB })
    );
}

#[test]
fn transfer_moves_funds_between_leaves() {
    let mut tree = tree_with(&[(1, account(100, 7)), (2, account(5, 0))]);
    let transfer = Operation::Transfer { from: 1, to: 2, amount: 30 };
    assert!(tree.accepts(&transfer));
    tree.apply_op(&transfer);
    assert_eq!(tree.get(1), Some(account(70, 7)));
    assert_eq!(tree.get(2), Some(account(35, 0)));
}

#[test]
fn transfer_to_an_empty_slot_credits_the_empty_account() {
    let mut tree = tree_with(&[(1, account(100, 7))]);
    let transfer = Operation::Transfer { from: 1, to: 2, amount: 30 };
    assert!(tree.accepts(&transfer));
    tree.apply_op(&transfer);
    assert_eq!(tree.get(1), Some(account(70, 7)));
    assert_eq!(tree.get(2), Some(Account { balance: 30, ..Account::default() }));
}

#[test]
fn transfer_to_oneself_keeps_the_balance() {
    let mut tree = tree_with(&[(1, account(u128::MAX, 7))]);
    let transfer = Operation::Transfer { from: 1, to: 1, amount: u128::MAX };
    assert!(tree.accepts(&transfer));
    tree.apply_op(&transfer);
    assert_eq!(tree.get(1), Some(account(u128::MAX, 7)));
}

#[test]
fn transfer_to_new_opens_the_destination() {
    let mut tree = tree_with(&[(1, account(100, 7))]);
    let transfer = Operation::TransferToNew { from: 1, to: 9, amount: 100, to_address: BOB };
    assert!(tree.accepts(&transfer));
    tree.apply_op(&transfer);
    assert_eq!(tree.get(1), Some(account(0, 7)));
    assert_eq!(
        tree.get(9),
        Some(Account { balance: 100, nonce: 0, pub_key_hash: [0u8; 20], address: BOB })
    );
}

#[test]
fn withdraw_debits_the_leaf() {
    let mut tree = tree_with(&[(1, account(100, 7))]);
    let withdraw = Operation::Withdraw { account_id: 1, amount: 1 };
    assert!(tree.accepts(&withdraw));
    tree.apply_op(&withdraw);
    assert_eq!(tree.get(1), Some(account(99, 7)));
}

#[test]
fn forced_exit_debits_the_target() {
    let mut tree = tree_with(&[(1, account(100, 7)), (2, account(9, 9))]);
    let exit = Operation::ForcedExit { target: 2, amount: 9 };
    assert!(tree.accepts(&exit));
    tree.apply_op(&exit);
    assert_eq!(tree.get(1), Some(account(100, 7)));
    assert_eq!(tree.get(2), Some(account(0, 9)));
}

#[test]
fn change_pub_key_updates_the_key_hash_only() {
    let mut tree = tree_with(&[(1, account(100, 7))]);
    let change = Operation::ChangePubKeyOffchain { account_id: 1, new_pub_key_hash: [0x77; 20] };
    assert!(tree.accepts(&change));
    tree.apply_op(&change);
    assert_eq!(
        tree.get(1),
        Some(Account { balance: 100, nonce: 7, pub_key_hash: [0x77; 20], address: ALICE })
    );
}

#[test]
fn noop_changes_nothing() {
    let mut tree = tree_with(&[(1, account(100, 7))]);
    assert!(tree.accepts(&Operation::Noop));
    tree.apply_op(&Operation::Noop);
    assert_eq!(tree.get(1), Some(account(100, 7)));
    assert_eq!(tree.len(), 1);
}

#[test]
fn overdrawing_operations_do_not_fit() {
    let tree = tree_with(&[(1, account(100, 7)), (2, account(0, 0))]);
    assert!(!tree.accepts(&Operation::Transfer { from: 1, to: 2, amount: 101 }));
    assert!(!tree.accepts(&Operation::TransferToNew {
        from: 1,
        to: 3,
        amount: 101,
        to_address: BOB
    }));
    assert!(!tree.accepts(&Operation::Withdraw { account_id: 1, amount: 101 }));
    assert!(!tree.accepts(&Operation::ForcedExit { target: 2, amount: 1 }));
    assert!(!tree.accepts(&Operation::Withdraw { account_id: 3, amount: 1 }));
    assert!(tree.accepts(&Operation::Withdraw { account_id: 1, amount: 100 }));
    assert!(tree.accepts(&Operation::Withdraw { account_id: 3, amount: 0 }));
}

#[test]
fn overflowing_credits_do_not_fit() {
    let tree = tree_with(&[(1, account(100, 7)), (2, account(u128::MAX - 9, 0))]);
    assert!(!tree.accepts(&Operation::Deposit { account_id: 2, amount: 10, address: ALICE }));
    assert!(tree.accepts(&Operation::Deposit { account_id: 2, amount: 9, address: ALICE }));
    assert!(!tree.accepts(&Operation::Transfer { from: 1, to: 2, amount: 10 }));
    assert!(tree.accepts(&Operation::Transfer { from: 1, to: 2, amount: 9 }));
}

#[test]
fn transfer_to_new_needs_a_free_slot() {
    let tree = tree_with(&[(1, account(100, 7)), (2, account(0, 0))]);
    assert!(!tree.accepts(&Operation::TransferToNew {
        from: 1,
        to: 2,
        amount: 1,
        to_address: BOB
    }));
    assert!(!tree.accepts(&Operation::TransferToNew {
        from: 1,
        to: 1,
        amount: 1,
        to_address: BOB
    }));
    assert!(tree.accepts(&Operation::TransferToNew {
        from: 1,
        to: 3,
        amount: 1,
        to_address: BOB
    }));
}

#[test]
fn an_emptied_leaf_is_a_free_slot() {
    let mut tree = tree_with(&[(1, account(100, 7)), (2, account(0, 4))]);
    tree.apply_op(&Operation::Close { account_id: 2 });
    assert_eq!(tree.get(2), Some(Account::default()));
    let transfer = Operation::TransferToNew { from: 1, to: 2, amount: 60, to_address: BOB };
    assert!(tree.accepts(&transfer));
    tree.apply_op(&transfer);
    assert_eq!(tree.get(1), Some(account(40, 7)));
    assert_eq!(
        tree.get(2),
        Some(Account { balance: 60, nonce: 0, pub_key_hash: [0u8; 20], address: BOB })
    );
}

#[test]
fn deposit_to_an_emptied_leaf_opens_the_account_again() {
    let mut tree = tree_with(&[(2, account(5, 4))]);
    tree.apply_op(&Operation::FullExit { account_id: 2, withdraw_amount: Some(5) });
    assert_eq!(tree.get(2), Some(Account::default()));
    let deposit = Operation::Deposit { account_id: 2, amount: 50, address: BOB };
    assert!(tree.accepts(&deposit));
    tree.apply_op(&deposit);
    assert_eq!(
        tree.get(2),
        Some(Account { balance: 50, nonce: 0, pub_key_hash: [0u8; 20], address: BOB })
    );
}

#[test]
fn deposit_keeps_the_address_of_an_account_that_exists() {
    let mut tree = tree_with(&[(2, account(0, 0))]);
    tree.apply_op(&Operation::Deposit { account_id: 2, amount: 50, address: BOB });
    assert_eq!(tree.get(2), Some(account(50, 0)));
}

#[test]
fn accounts_outside_the_address_space_do_not_fit() {
    let mut tree = AccountTree::new(2);
    tree.insert(1, account(100, 7));
    assert!(tree.accepts(&Operation::Deposit { account_id: 3, amount: 1, address: ALICE }));
    assert!(!tree.accepts(&Operation::Deposit { account_id: 4, amount: 1, address: ALICE }));
    assert!(!tree.accepts(&Operation::Transfer { from: 1, to: 4, amount: 1 }));
    assert!(!tree.accepts(&Operation::Transfer { from: 4, to: 1, amount: 0 }));
    assert!(!tree.accepts(&Operation::TransferToNew {
        from: 1,
        to: 4,
        amount: 1,
        to_address: BOB
    }));
    assert!(!tree.accepts(&Operation::Withdraw { account_id: 4, amount: 0 }));
    assert!(!tree.accepts(&Operation::Close { account_id: 4 }));
    assert!(!tree.accepts(&Operation::FullExit { account_id: 4, withdraw_amount: Some(0) }));
    assert!(!tree.accepts(&Operation::ChangePubKeyOffchain {
        account_id: 4,
        new_pub_key_hash: KEY
    }));
    assert!(!tree.accepts(&Operation::ForcedExit { target: 4, amount: 0 }));
    assert!(tree.accepts(&Operation::Close { account_id: 3 }));
}

#[test]
fn apply_replays_operations_in_order() {
    let mut state = state_with(&[(1, account(100, 7))]);
    state.apply(vec![
        Operation::TransferToNew { from: 1, to: 2, amount: 60, to_address: BOB },
        Operation::Transfer { from: 2, to: 1, amount: 10 },
        Operation::Withdraw { account_id: 2, amount: 50 },
        Operation::Noop,
    ]);
    assert_eq!(state.circuit_acc_tree.get(1), Some(account(50, 7)));
    assert_eq!(
        state.circuit_acc_tree.get(2),
        Some(Account { balance: 0, nonce: 0, pub_key_hash: [0u8; 20], address: BOB })
    );
    assert_eq!(state.circuit_tree_block, 0);
    assert_eq!(state.state_keeper_block, 0);
}

#[test]
fn apply_of_no_operations_changes_nothing() {
    let mut state = state_with(&[(1, account(100, 7))]);
    state.apply(Vec::new());
    assert_eq!(state.circuit_acc_tree.get(1), Some(account(100, 7)));
    assert_eq!(state.circuit_acc_tree.len(), 1);
}

#[test]
fn try_apply_replays_what_fits() {
    let mut state = state_with(&[(1, account(100, 7))]);
    let done = state.try_apply(&vec![
        Operation::Withdraw { account_id: 1, amount: 60 },
        Operation::Withdraw { account_id: 1, amount: 40 },
    ]);
    assert_eq!(done, Ok(()));
    assert_eq!(state.circuit_acc_tree.get(1), Some(account(0, 7)));
}

#[test]
fn try_apply_stops_before_the_first_operation_that_does_not_fit() {
    let mut state = state_with(&[(1, account(100, 7))]);
    let done = state.try_apply(&vec![
        Operation::Withdraw { account_id: 1, amount: 60 },
        Operation::Withdraw { account_id: 1, amount: 41 },
        Operation::Withdraw { account_id: 1, amount: 1 },
    ]);
    assert_eq!(done, Err(Malformed { index: 1 }));
    assert_eq!(state.circuit_acc_tree.get(1), Some(account(40, 7)));
}

#[test]
fn an_operation_fits_only_after_the_ones_before_it() {
    let mut state = state_with(&[(1, account(100, 7))]);
    let ops = vec![
        Operation::Deposit { account_id: 2, amount: 5, address: BOB },
        Operation::Withdraw { account_id: 2, amount: 5 },
    ];
    assert!(!state.circuit_acc_tree.accepts(&ops[1]));
    assert_eq!(state.try_apply(&ops), Ok(()));
    assert_eq!(state.circuit_acc_tree.get(2).map(|leaf| leaf.balance), Some(0));
}

#[test]
fn replaying_twice_from_the_same_leaves_gives_the_same_leaves() {
    let ops = vec![
        Operation::Transfer { from: 1, to: 2, amount: 30 },
        Operation::Deposit { account_id: 2, amount: 50, address: BOB },
        Operation::Close { account_id: 1 },
    ];
    let mut first = state_with(&[(1, account(100, 7))]);
    let mut second = state_with(&[(1, account(100, 7))]);
    first.apply(ops.clone());
    second.apply(ops);
    let ids = [0, 1, 2, 3];
    assert_eq!(leaves(&first.circuit_acc_tree, &ids), leaves(&second.circuit_acc_tree, &ids));
    assert_eq!(first.circuit_acc_tree.len(), second.circuit_acc_tree.len());
}

#[test]
fn replaying_in_parts_gives_what_replaying_in_one_pass_gives() {
    let ops = vec![
        Operation::Transfer { from: 1, to: 2, amount: 30 },
        Operation::Deposit { account_id: 2, amount: 50, address: BOB },
        Operation::ChangePubKeyOffchain { account_id: 2, new_pub_key_hash: KEY },
        Operation::ForcedExit { target: 2, amount: 80 },
        Operation::FullExit { account_id: 1, withdraw_amount: Some(70) },
    ];
    let mut whole = state_with(&[(1, account(100, 7))]);
    whole.apply(ops.clone());
    let ids = [0, 1, 2, 3];
    for cut in 0..=ops.len() {
        let mut parts = state_with(&[(1, account(100, 7))]);
        parts.apply(ops[..cut].to_vec());
        parts.apply(ops[cut..].to_vec());
        assert_eq!(leaves(&parts.circuit_acc_tree, &ids), leaves(&whole.circuit_acc_tree, &ids));
    }
    let mut one_by_one = state_with(&[(1, account(100, 7))]);
    for op in &ops {
        one_by_one.apply(vec![*op]);
    }
    assert_eq!(leaves(&one_by_one.circuit_acc_tree, &ids), leaves(&whole.circuit_acc_tree, &ids));
    assert_eq!(
        whole.circuit_acc_tree.get(2),
        Some(Account { balance: 0, nonce: 0, pub_key_hash: KEY, address: [0u8; 20] })
    );
    assert_eq!(whole.circuit_acc_tree.get(1), Some(Account::default()));
}

#[test]
fn new_state_has_seen_nothing() {
    let state = ObservedState::new(24);
    assert_eq!(state.circuit_acc_tree.len(), 0);
    assert_eq!(state.circuit_acc_tree.tree_depth(), 24);
    assert_eq!(state.circuit_tree_block, 0);
    assert_eq!(state.state_keeper_block, 0);
}

#[test]
fn initial_load_stores_every_account_and_the_block() {
    let mut state = ObservedState::new(24);
    state.init_circuit_tree(10, vec![(1, account(100, 0)), (7, account(3, 2))]);
    assert_eq!(state.circuit_tree_block, 10);
    assert_eq!(state.state_keeper_block, 0);
    assert_eq!(state.circuit_acc_tree.len(), 2);
    assert_eq!(state.circuit_acc_tree.get(1), Some(account(100, 0)));
    assert_eq!(state.circuit_acc_tree.get(7), Some(account(3, 2)));
}

#[test]
fn initial_load_keeps_the_later_of_two_entries() {
    let mut state = ObservedState::new(24);
    state.init_circuit_tree(10, vec![(1, account(100, 0)), (1, account(3, 2))]);
    assert_eq!(state.circuit_acc_tree.len(), 1);
    assert_eq!(state.circuit_acc_tree.get(1), Some(account(3, 2)));
}

#[test]
fn loading_a_snapshot_into_two_trees_gives_equal_trees() {
    let snapshot = vec![(1, account(100, 0)), (7, account(3, 2)), (1, account(4, 4))];
    let mut first = ObservedState::new(24);
    let mut second = ObservedState::new(24);
    first.init_circuit_tree(10, snapshot.clone());
    second.init_circuit_tree(10, snapshot);
    let ids = [0, 1, 7, 8];
    assert_eq!(leaves(&first.circuit_acc_tree, &ids), leaves(&second.circuit_acc_tree, &ids));
    assert_eq!(first.circuit_acc_tree.len(), second.circuit_acc_tree.len());
    assert_eq!(first.circuit_tree_block, second.circuit_tree_block);
}

#[test]
fn loading_a_snapshot_again_changes_nothing() {
    let snapshot = vec![(1, account(100, 0)), (7, account(3, 2)), (1, account(4, 4))];
    let mut once = ObservedState::new(24);
    once.init_circuit_tree(10, snapshot.clone());
    let mut twice = ObservedState::new(24);
    twice.init_circuit_tree(10, snapshot.clone());
    twice.init_circuit_tree(10, snapshot);
    let ids = [0, 1, 7, 8];
    assert_eq!(leaves(&once.circuit_acc_tree, &ids), leaves(&twice.circuit_acc_tree, &ids));
    assert_eq!(once.circuit_acc_tree.len(), twice.circuit_acc_tree.len());
}

#[test]
fn first_out_of_range_finds_the_first_account_that_does_not_fit() {
    let state = ObservedState::new(3);
    assert_eq!(state.first_out_of_range(&Vec::new()), None);
    assert_eq!(state.first_out_of_range(&vec![(0, account(1, 0)), (7, account(1, 0))]), None);
    assert_eq!(
        state.first_out_of_range(&vec![(0, account(1, 0)), (8, account(1, 0)), (9, account(1, 0))]),
        Some(1)
    );
}
