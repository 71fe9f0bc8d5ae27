//! Runs of the synchronizer: what holds of every sequence of events.

use crate::account::BlockNumber;
use crate::laws::{
    blocks_replayable, lemma_blocks_replayable_prefix, lemma_replay_blocks_in_parts,
    replay_blocks,
};
use crate::operation::Operation;
use crate::sync::{
    consistent, later_of, transition, Event, Model, Stage, StopSignal, SyncError,
};
use crate::tree::capacity_of;
use vstd::prelude::*;

verus! {

/// The state after the events of `events` have been answered in turn, or the
/// error that ended the run.
pub open spec fn run(m: Model, events: Seq<Event>) -> Result<Model, SyncError>
    decreases events.len(),
{
    if events.len() == 0 {
        Ok(m)
    } else {
        match run(m, events.drop_last()) {
            Ok(before) => match transition(before, events.last()) {
                Ok((after, _)) => Ok(after),
                Err(error) => Err(error),
            },
            Err(error) => Err(error),
        }
    }
}

/// Whether neither block number of `later` lies below that of `earlier`.
pub open spec fn not_behind(earlier: Model, later: Model) -> bool {
    &&& earlier.circuit_tree_block <= later.circuit_tree_block
    &&& earlier.state_keeper_block <= later.state_keeper_block
}

/// One step keeps a consistent state consistent and the tree's depth as it
/// is, and lets neither block number decrease, whatever storage reports.
pub proof fn lemma_step_never_regresses(m: Model, event: Event)
    requires
        consistent(m),
        transition(m, event) is Ok,
    ensures
        consistent(transition(m, event)->Ok_0.0),
        transition(m, event)->Ok_0.0.depth == m.depth,
        not_behind(m, transition(m, event)->Ok_0.0),
{
}

/// A run cut at any point: what came before the cut is a run of its own.
pub proof fn lemma_run_prefix(m: Model, events: Seq<Event>, i: int)
    requires
        0 <= i <= events.len(),
        run(m, events) is Ok,
    ensures
        run(m, events.take(i)) is Ok,
    decreases events.len(),
{
    if i == events.len() {
        assert(events.take(i) == events);
    } else if i == events.len() - 1 {
        assert(events.take(i) == events.drop_last());
    } else {
        lemma_run_prefix(m, events.drop_last(), i);
        assert(events.drop_last().take(i) == events.take(i));
    }
}

/// A run that starts consistent ends consistent, on a tree of the same
/// depth, with neither block number below where it started.
pub proof fn lemma_run_never_regresses(m: Model, events: Seq<Event>)
    requires
        consistent(m),
        run(m, events) is Ok,
    ensures
        consistent(run(m, events)->Ok_0),
        run(m, events)->Ok_0.depth == m.depth,
        not_behind(m, run(m, events)->Ok_0),
    decreases events.len(),
{
    if events.len() > 0 {
        lemma_run_never_regresses(m, events.drop_last());
        lemma_step_never_regresses(run(m, events.drop_last())->Ok_0, events.last());
    }
}

/// Across any run, the block of the account tree and the block of the
/// checkpoint never decrease: at any two points of the run, the later state
/// is not behind the earlier one. This holds whatever storage reports, and
/// so where it reports no new block.
pub proof fn lemma_marks_never_decrease(m: Model, events: Seq<Event>, i: int, j: int)
    requires
        consistent(m),
        run(m, events) is Ok,
        0 <= i <= j <= events.len(),
    ensures
        run(m, events.take(i)) is Ok,
        run(m, events.take(j)) is Ok,
        not_behind(run(m, events.take(i))->Ok_0, run(m, events.take(j))->Ok_0),
    decreases j - i,
{
    lemma_run_prefix(m, events, i);
    lemma_run_prefix(m, events, j);
    if i < j {
        lemma_marks_never_decrease(m, events, i, j - 1);
        lemma_run_prefix(m, events, j - 1);
        assert(events.take(j).drop_last() == events.take(j - 1));
        assert(events.take(j).last() == events[j - 1]);
        lemma_run_never_regresses(m, events.take(j - 1));
        lemma_step_never_regresses(run(m, events.take(j - 1))->Ok_0, events[j - 1]);
    }
}

/// The operations of each block.
pub open spec fn contents(blocks: Seq<Vec<Operation>>) -> Seq<Seq<Operation>> {
    Seq::new(blocks.len(), |i: int| blocks[i]@)
}

/// The events by which storage hands the blocks over, one after another.
pub open spec fn block_events(blocks: Seq<Vec<Operation>>) -> Seq<Event> {
    Seq::new(blocks.len(), |i: int| Event::BlockOperations(blocks[i]))
}

/// The events of one tick that meets no failure: the look at the stop
/// channel, the pause, the number of the last verified block, the blocks
/// that the tree lacks, and the checkpoint brought up to `checkpoint_block`.
pub open spec fn tick_events(
    signal: StopSignal,
    last_verified: BlockNumber,
    blocks: Seq<Vec<Operation>>,
    checkpoint_block: BlockNumber,
) -> Seq<Event> {
    seq![Event::StopChecked(signal), Event::Slept, Event::LastVerifiedBlock(last_verified)]
        + block_events(blocks) + seq![
        Event::CheckpointAdvanced { last_block_number: checkpoint_block },
    ]
}

/// How many blocks a tree at block `from` lacks when the last verified block
/// is `last_verified`.
pub open spec fn blocks_behind(from: BlockNumber, last_verified: BlockNumber) -> nat {
    if from < last_verified {
        (last_verified - from) as nat
    } else {
        0
    }
}

/// The state that a tick leaves behind: the blocks that the tree lacked are
/// replayed, and each block number is the later of what it was and what
/// storage reported.
pub open spec fn after_tick(
    m: Model,
    signal: StopSignal,
    last_verified: BlockNumber,
    blocks: Seq<Vec<Operation>>,
    checkpoint_block: BlockNumber,
) -> Model {
    Model {
        stage: if signal == StopSignal::Requested {
            Stage::Stopped
        } else {
            Stage::CheckingStop
        },
        leaves: replay_blocks(m.leaves, contents(blocks)),
        depth: m.depth,
        circuit_tree_block: later_of(m.circuit_tree_block, last_verified),
        state_keeper_block: later_of(m.state_keeper_block, checkpoint_block),
    }
}

/// A run of one event is one step.
pub proof fn lemma_run_one(m: Model, event: Event)
    ensures
        run(m, seq![event]) == match transition(m, event) {
            Ok((after, _)) => Ok::<Model, SyncError>(after),
            Err(error) => Err(error),
        },
{
    assert(seq![event].drop_last() == Seq::<Event>::empty());
    assert(seq![event].last() == event);
    assert(run(m, Seq::<Event>::empty()) == Ok::<Model, SyncError>(m));
}

/// A run in two parts is the run of the second part from where the first
/// one ended.
pub proof fn lemma_run_in_parts(m: Model, earlier: Seq<Event>, later: Seq<Event>)
    ensures
        run(m, earlier + later) == match run(m, earlier) {
            Ok(between) => run(between, later),
            Err(error) => Err(error),
        },
    decreases later.len(),
{
    if later.len() == 0 {
        assert(earlier + later == earlier);
    } else {
        lemma_run_in_parts(m, earlier, later.drop_last());
        assert((earlier + later).drop_last() == earlier + later.drop_last());
        assert((earlier + later).last() == later.last());
    }
}

/// While blocks are being fetched, each block that arrives is replayed and
/// the next one is asked for.
proof fn lemma_fetching(m: Model, blocks: Seq<Vec<Operation>>, j: int)
    requires
        m.stage is FetchingBlock,
        m.stage->next <= m.stage->target,
        blocks.len() == m.stage->target - m.stage->next + 1,
        blocks_replayable(m.leaves, capacity_of(m.depth), contents(blocks)),
        0 <= j < blocks.len(),
    ensures
        run(m, block_events(blocks).take(j)) == Ok::<Model, SyncError>(
            Model {
                stage: Stage::FetchingBlock {
                    exit: m.stage->FetchingBlock_exit,
                    next: (m.stage->next + j) as BlockNumber,
                    target: m.stage->target,
                },
                leaves: replay_blocks(m.leaves, contents(blocks).take(j)),
                ..m
            },
        ),
    decreases j,
{
    let events = block_events(blocks);
    if j == 0 {
        assert(events.take(0) == Seq::<Event>::empty());
        assert(contents(blocks).take(0) == Seq::<Seq<Operation>>::empty());
    } else {
        lemma_fetching(m, blocks, j - 1);
        lemma_blocks_replayable_prefix(
            m.leaves,
            capacity_of(m.depth),
            contents(blocks),
            j - 1,
        );
        assert(events.take(j).drop_last() == events.take(j - 1));
        assert(events.take(j).last() == Event::BlockOperations(blocks[j - 1]));
        assert(contents(blocks)[j - 1] == blocks[j - 1]@);
    }
}

/// Once the blocks that the tree lacks have all arrived, the tree holds
/// what replaying them in order gives, stands at the target block, and the
/// checkpoint is next.
pub proof fn lemma_catch_up(m: Model, blocks: Seq<Vec<Operation>>)
    requires
        m.stage is FetchingBlock,
        m.stage->next <= m.stage->target,
        blocks.len() == m.stage->target - m.stage->next + 1,
        blocks_replayable(m.leaves, capacity_of(m.depth), contents(blocks)),
    ensures
        run(m, block_events(blocks)) == Ok::<Model, SyncError>(
            Model {
                stage: Stage::LoadingCheckpointDiff { exit: m.stage->FetchingBlock_exit },
                leaves: replay_blocks(m.leaves, contents(blocks)),
                circuit_tree_block: m.stage->target,
                ..m
            },
        ),
{
    let events = block_events(blocks);
    let last = blocks.len() - 1;
    lemma_fetching(m, blocks, last);
    lemma_blocks_replayable_prefix(m.leaves, capacity_of(m.depth), contents(blocks), last);
    assert(events.drop_last() == events.take(last));
    assert(events.last() == Event::BlockOperations(blocks[last]));
    assert(contents(blocks)[last] == blocks[last]@);
    assert(contents(blocks).take(last + 1) == contents(blocks));
}

/// A tick that meets no failure brings the tree to the last verified block
/// that storage reported in it, by replaying every block in between, and
/// the checkpoint to the block that storage brought it to; a number that
/// lies behind changes nothing. After a stop request the tick is still made
/// in full, and the run is then complete.
pub proof fn lemma_tick(
    m: Model,
    signal: StopSignal,
    last_verified: BlockNumber,
    blocks: Seq<Vec<Operation>>,
    checkpoint_block: BlockNumber,
)
    requires
        m.stage == Stage::CheckingStop,
        signal != StopSignal::Disconnected,
        blocks.len() == blocks_behind(m.circuit_tree_block, last_verified),
        blocks_replayable(m.leaves, capacity_of(m.depth), contents(blocks)),
    ensures
        run(m, tick_events(signal, last_verified, blocks, checkpoint_block)) == Ok::<
            Model,
            SyncError,
        >(after_tick(m, signal, last_verified, blocks, checkpoint_block)),
{
    let exit = signal == StopSignal::Requested;
    let checked = seq![Event::StopChecked(signal)];
    let slept = seq![Event::Slept];
    let reported = seq![Event::LastVerifiedBlock(last_verified)];
    let fetched = block_events(blocks);
    let advanced = seq![Event::CheckpointAdvanced { last_block_number: checkpoint_block }];
    assert(tick_events(signal, last_verified, blocks, checkpoint_block) == checked + slept
        + reported + fetched + advanced);
    let sleeping = Model { stage: Stage::Sleeping { exit }, ..m };
    let querying = Model { stage: Stage::QueryingLastVerified { exit }, ..m };
    lemma_run_one(m, Event::StopChecked(signal));
    lemma_run_one(sleeping, Event::Slept);
    lemma_run_one(querying, Event::LastVerifiedBlock(last_verified));
    lemma_run_in_parts(m, checked, slept);
    lemma_run_in_parts(m, checked + slept, reported);
    let fetching = run(m, checked + slept + reported)->Ok_0;
    lemma_run_in_parts(m, checked + slept + reported, fetched);
    if m.circuit_tree_block < last_verified {
        lemma_catch_up(fetching, blocks);
    } else {
        assert(fetched == Seq::<Event>::empty());
        assert(contents(blocks) == Seq::<Seq<Operation>>::empty());
    }
    let loading = run(m, checked + slept + reported + fetched)->Ok_0;
    lemma_run_one(loading, Event::CheckpointAdvanced { last_block_number: checkpoint_block });
    lemma_run_in_parts(m, checked + slept + reported + fetched, advanced);
}

/// One tick as storage and the stop channel answered it.
pub struct Tick {
    /// What the look at the stop channel found.
    pub signal: StopSignal,
    /// The number of the last verified block.
    pub last_verified: BlockNumber,
    /// The blocks that the tree lacked, in order.
    pub blocks: Seq<Vec<Operation>>,
    /// The block that the checkpoint was brought to.
    pub checkpoint_block: BlockNumber,
}

/// The events of the ticks, one tick after another.
pub open spec fn ticks_events(ticks: Seq<Tick>) -> Seq<Event>
    decreases ticks.len(),
{
    if ticks.len() == 0 {
        Seq::empty()
    } else {
        ticks_events(ticks.drop_last()) + tick_events(
            ticks.last().signal,
            ticks.last().last_verified,
            ticks.last().blocks,
            ticks.last().checkpoint_block,
        )
    }
}

/// The state that the ticks leave behind.
pub open spec fn after_ticks(m: Model, ticks: Seq<Tick>) -> Model
    decreases ticks.len(),
{
    if ticks.len() == 0 {
        m
    } else {
        after_tick(
            after_ticks(m, ticks.drop_last()),
            ticks.last().signal,
            ticks.last().last_verified,
            ticks.last().blocks,
            ticks.last().checkpoint_block,
        )
    }
}

/// The blocks of all the ticks, in order.
pub open spec fn blocks_of(ticks: Seq<Tick>) -> Seq<Vec<Operation>>
    decreases ticks.len(),
{
    if ticks.len() == 0 {
        Seq::empty()
    } else {
        blocks_of(ticks.drop_last()) + ticks.last().blocks
    }
}

/// Whether the ticks can follow one another from `m` without a failure: each
/// begins where a tick may begin, finds the stop channel alive, and brings
/// exactly the blocks that the tree lacks by then, each of which can be
/// replayed.
pub open spec fn ticks_fit(m: Model, ticks: Seq<Tick>) -> bool
    decreases ticks.len(),
{
    if ticks.len() == 0 {
        true
    } else {
        let before = after_ticks(m, ticks.drop_last());
        &&& ticks_fit(m, ticks.drop_last())
        &&& before.stage == Stage::CheckingStop
        &&& ticks.last().signal != StopSignal::Disconnected
        &&& ticks.last().blocks.len() == blocks_behind(
            before.circuit_tree_block,
            ticks.last().last_verified,
        )
        &&& blocks_replayable(
            before.leaves,
            capacity_of(before.depth),
            contents(ticks.last().blocks),
        )
    }
}

/// Any number of ticks that fit run without a failure and leave behind what
/// tick after tick leaves behind.
pub proof fn lemma_ticks(m: Model, ticks: Seq<Tick>)
    requires
        ticks_fit(m, ticks),
    ensures
        run(m, ticks_events(ticks)) == Ok::<Model, SyncError>(after_ticks(m, ticks)),
    decreases ticks.len(),
{
    if ticks.len() > 0 {
        let last = ticks.last();
        lemma_ticks(m, ticks.drop_last());
        lemma_tick(
            after_ticks(m, ticks.drop_last()),
            last.signal,
            last.last_verified,
            last.blocks,
            last.checkpoint_block,
        );
        lemma_run_in_parts(
            m,
            ticks_events(ticks.drop_last()),
            tick_events(last.signal, last.last_verified, last.blocks, last.checkpoint_block),
        );
    }
}

/// Ticks that fit replay every block between the block that the tree stood
/// at and the block that it ends at, each once and in order: the tree ends
/// with the leaves that replaying all their blocks in one pass gives.
pub proof fn lemma_ticks_replay_every_block(m: Model, ticks: Seq<Tick>)
    requires
        ticks_fit(m, ticks),
    ensures
        after_ticks(m, ticks).depth == m.depth,
        m.circuit_tree_block <= after_ticks(m, ticks).circuit_tree_block,
        blocks_of(ticks).len() == after_ticks(m, ticks).circuit_tree_block - m.circuit_tree_block,
        blocks_replayable(m.leaves, capacity_of(m.depth), contents(blocks_of(ticks))),
        after_ticks(m, ticks).leaves == replay_blocks(m.leaves, contents(blocks_of(ticks))),
    decreases ticks.len(),
{
    if ticks.len() == 0 {
        assert(contents(blocks_of(ticks)) == Seq::<Seq<Operation>>::empty());
    } else {
        let earlier = blocks_of(ticks.drop_last());
        let later = ticks.last().blocks;
        lemma_ticks_replay_every_block(m, ticks.drop_last());
        assert(contents(earlier + later) == contents(earlier) + contents(later));
        lemma_replay_blocks_in_parts(
            m.leaves,
            capacity_of(m.depth),
            contents(earlier),
            contents(later),
        );
    }
}

/// However the blocks that the tree lacks are spread over ticks, the tree
/// ends with the same leaves at the same block: any number of ticks that fit
/// leave the tree as the one tick does that brings all their blocks at once.
pub proof fn lemma_ticks_converge(
    m: Model,
    ticks: Seq<Tick>,
    signal: StopSignal,
    checkpoint_block: BlockNumber,
)
    requires
        m.stage == Stage::CheckingStop,
        signal != StopSignal::Disconnected,
        ticks_fit(m, ticks),
    ensures
        run(m, ticks_events(ticks)) == Ok::<Model, SyncError>(after_ticks(m, ticks)),
        run(
            m,
            tick_events(
                signal,
                after_ticks(m, ticks).circuit_tree_block,
                blocks_of(ticks),
                checkpoint_block,
            ),
        ) == Ok::<Model, SyncError>(
            after_tick(
                m,
                signal,
                after_ticks(m, ticks).circuit_tree_block,
                blocks_of(ticks),
                checkpoint_block,
            ),
        ),
        after_tick(
            m,
            signal,
            after_ticks(m, ticks).circuit_tree_block,
            blocks_of(ticks),
            checkpoint_block,
        ).leaves == after_ticks(m, ticks).leaves,
        after_tick(
            m,
            signal,
            after_ticks(m, ticks).circuit_tree_block,
            blocks_of(ticks),
            checkpoint_block,
        ).circuit_tree_block == after_ticks(m, ticks).circuit_tree_block,
{
    lemma_ticks(m, ticks);
    lemma_ticks_replay_every_block(m, ticks);
    lemma_tick(
        m,
        signal,
        after_ticks(m, ticks).circuit_tree_block,
        blocks_of(ticks),
        checkpoint_block,
    );
}

} // verus!
