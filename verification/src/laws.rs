//! Laws of loading and replaying: what holds of every tree, snapshot and
//! sequence of operations.

use crate::account::{Account, AccountId};
use crate::observer::load;
use crate::operation::{replay, replayable, Operation};
use vstd::prelude::*;

verus! {

/// The leaves after each block of `blocks` has been replayed, block after
/// block.
pub open spec fn replay_blocks(leaves: Map<AccountId, Account>, blocks: Seq<Seq<Operation>>) -> Map<
    AccountId,
    Account,
>
    decreases blocks.len(),
{
    if blocks.len() == 0 {
        leaves
    } else {
        replay(replay_blocks(leaves, blocks.drop_last()), blocks.last())
    }
}

/// Whether each block of `blocks` can be replayed on what the blocks before
/// it leave behind.
pub open spec fn blocks_replayable(
    leaves: Map<AccountId, Account>,
    capacity: nat,
    blocks: Seq<Seq<Operation>>,
) -> bool
    decreases blocks.len(),
{
    if blocks.len() == 0 {
        true
    } else {
        &&& blocks_replayable(leaves, capacity, blocks.drop_last())
        &&& replayable(replay_blocks(leaves, blocks.drop_last()), capacity, blocks.last())
    }
}

/// All operations of `blocks` in one sequence, in their order.
pub open spec fn all_operations(blocks: Seq<Seq<Operation>>) -> Seq<Operation>
    decreases blocks.len(),
{
    if blocks.len() == 0 {
        Seq::empty()
    } else {
        all_operations(blocks.drop_last()) + blocks.last()
    }
}

/// A replayable run of blocks is replayable up to each of its blocks, each
/// block can be replayed on what the blocks before it leave behind, and
/// replaying one block more replays it on just that.
pub proof fn lemma_blocks_replayable_prefix(
    leaves: Map<AccountId, Account>,
    capacity: nat,
    blocks: Seq<Seq<Operation>>,
    i: int,
)
    requires
        blocks_replayable(leaves, capacity, blocks),
        0 <= i <= blocks.len(),
    ensures
        blocks_replayable(leaves, capacity, blocks.take(i)),
        i < blocks.len() ==> replayable(replay_blocks(leaves, blocks.take(i)), capacity, blocks[i]),
        i < blocks.len() ==> replay_blocks(leaves, blocks.take(i + 1)) == replay(
            replay_blocks(leaves, blocks.take(i)),
            blocks[i],
        ),
    decreases blocks.len(),
{
    if i == blocks.len() {
        assert(blocks.take(i) == blocks);
    } else {
        assert(blocks.take(i + 1).drop_last() == blocks.take(i));
        assert(blocks.take(i + 1).last() == blocks[i]);
        if i == blocks.len() - 1 {
            assert(blocks.take(i) == blocks.drop_last());
        } else {
            lemma_blocks_replayable_prefix(leaves, capacity, blocks.drop_last(), i);
            assert(blocks.drop_last().take(i) == blocks.take(i));
        }
    }
}

/// Storing a leaf twice is storing it once.
pub proof fn lemma_insert_idempotent(leaves: Map<AccountId, Account>, id: AccountId, account: Account)
    ensures
        leaves.insert(id, account).insert(id, account) == leaves.insert(id, account),
{
    assert(leaves.insert(id, account).insert(id, account) =~= leaves.insert(id, account));
}

/// Loading a snapshot lays its accounts over the leaves that were there: the
/// result is the old leaves, overridden by what the snapshot alone gives.
pub proof fn lemma_load_overlays(leaves: Map<AccountId, Account>, accounts: Seq<(AccountId, Account)>)
    ensures
        load(leaves, accounts) == leaves.union_prefer_right(
            load(Map::<AccountId, Account>::empty(), accounts),
        ),
    decreases accounts.len(),
{
    let alone = load(Map::<AccountId, Account>::empty(), accounts);
    if accounts.len() == 0 {
        assert(leaves =~= leaves.union_prefer_right(alone));
    } else {
        lemma_load_overlays(leaves, accounts.drop_last());
        let before = load(Map::<AccountId, Account>::empty(), accounts.drop_last());
        let (id, account) = accounts.last();
        assert(leaves.union_prefer_right(before).insert(id, account) =~= leaves.union_prefer_right(
            before.insert(id, account),
        ));
    }
}

/// Two trees that hold the same leaves hold the same leaves after the same
/// snapshot has been loaded into each.
pub proof fn lemma_load_deterministic(
    first: Map<AccountId, Account>,
    second: Map<AccountId, Account>,
    accounts: Seq<(AccountId, Account)>,
)
    requires
        first == second,
    ensures
        load(first, accounts) == load(second, accounts),
{
}

/// Loading a snapshot a second time changes nothing.
pub proof fn lemma_load_idempotent(leaves: Map<AccountId, Account>, accounts: Seq<(AccountId, Account)>)
    ensures
        load(load(leaves, accounts), accounts) == load(leaves, accounts),
{
    let alone = load(Map::<AccountId, Account>::empty(), accounts);
    lemma_load_overlays(leaves, accounts);
    lemma_load_overlays(load(leaves, accounts), accounts);
    assert(leaves.union_prefer_right(alone).union_prefer_right(alone) =~= leaves.union_prefer_right(
        alone,
    ));
}

/// Two trees that hold the same leaves take the same operations, and hold
/// the same leaves after them.
pub proof fn lemma_replay_deterministic(
    first: Map<AccountId, Account>,
    second: Map<AccountId, Account>,
    capacity: nat,
    ops: Seq<Operation>,
)
    requires
        first == second,
    ensures
        replayable(first, capacity, ops) == replayable(second, capacity, ops),
        replay(first, ops) == replay(second, ops),
{
}

/// Replaying a sequence in two parts is replaying it whole: the parts can be
/// replayed one after the other exactly when the whole can, and the leaves
/// come out the same.
pub proof fn lemma_replay_in_parts(
    leaves: Map<AccountId, Account>,
    capacity: nat,
    head: Seq<Operation>,
    tail: Seq<Operation>,
)
    ensures
        replay(leaves, head + tail) == replay(replay(leaves, head), tail),
        replayable(leaves, capacity, head + tail) <==> replayable(leaves, capacity, head)
            && replayable(replay(leaves, head), capacity, tail),
    decreases tail.len(),
{
    if tail.len() == 0 {
        assert(head + tail == head);
    } else {
        lemma_replay_in_parts(leaves, capacity, head, tail.drop_last());
        assert((head + tail).drop_last() == head + tail.drop_last());
        assert((head + tail).last() == tail.last());
    }
}

/// Replaying block after block is replaying all their operations in one
/// pass.
pub proof fn lemma_replay_block_by_block(
    leaves: Map<AccountId, Account>,
    capacity: nat,
    blocks: Seq<Seq<Operation>>,
)
    ensures
        replay_blocks(leaves, blocks) == replay(leaves, all_operations(blocks)),
        blocks_replayable(leaves, capacity, blocks) <==> replayable(
            leaves,
            capacity,
            all_operations(blocks),
        ),
    decreases blocks.len(),
{
    if blocks.len() > 0 {
        lemma_replay_block_by_block(leaves, capacity, blocks.drop_last());
        lemma_replay_in_parts(leaves, capacity, all_operations(blocks.drop_last()), blocks.last());
    }
}

/// However a run of blocks is cut in two, replaying the first part and then
/// the second gives what replaying the whole run gives.
pub proof fn lemma_replay_blocks_in_parts(
    leaves: Map<AccountId, Account>,
    capacity: nat,
    earlier: Seq<Seq<Operation>>,
    later: Seq<Seq<Operation>>,
)
    ensures
        replay_blocks(leaves, earlier + later) == replay_blocks(
            replay_blocks(leaves, earlier),
            later,
        ),
        blocks_replayable(leaves, capacity, earlier + later) <==> blocks_replayable(
            leaves,
            capacity,
            earlier,
        ) && blocks_replayable(replay_blocks(leaves, earlier), capacity, later),
    decreases later.len(),
{
    if later.len() == 0 {
        assert(earlier + later == earlier);
    } else {
        lemma_replay_blocks_in_parts(leaves, capacity, earlier, later.drop_last());
        assert((earlier + later).drop_last() == earlier + later.drop_last());
        assert((earlier + later).last() == later.last());
    }
}

/// A full exit that the ledger rejected fits every tree and leaves every
/// leaf as it was.
pub proof fn lemma_rejected_full_exit_changes_nothing(
    leaves: Map<AccountId, Account>,
    capacity: nat,
    account_id: AccountId,
)
    ensures
        (Operation::FullExit { account_id, withdraw_amount: None }).well_formed(leaves, capacity),
        (Operation::FullExit { account_id, withdraw_amount: None }).apply(leaves) == leaves,
{
}

/// A full exit that the ledger carried out empties the leaf of its account
/// and touches no other.
pub proof fn lemma_successful_full_exit_empties_leaf(
    leaves: Map<AccountId, Account>,
    account_id: AccountId,
    amount: u128,
)
    ensures
        (Operation::FullExit { account_id, withdraw_amount: Some(amount) }).apply(leaves)
            == leaves.insert(account_id, Account::empty()),
        (Operation::FullExit { account_id, withdraw_amount: Some(amount) }).apply(
            leaves,
        )[account_id] == Account::empty(),
        forall|other: AccountId|
            other != account_id ==> ((Operation::FullExit {
                account_id,
                withdraw_amount: Some(amount),
            }).apply(leaves).contains_key(other) <==> #[trigger] leaves.contains_key(other)),
        forall|other: AccountId|
            other != account_id && leaves.contains_key(other) ==> (Operation::FullExit {
                account_id,
                withdraw_amount: Some(amount),
            }).apply(leaves)[other] == #[trigger] leaves[other],
{
}

} // verus!
