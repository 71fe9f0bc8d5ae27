//! The synchronizer: the decisions of observer mode, as a machine that is
//! told what happened and answers what to do next.
//!
//! The machine never touches storage, the clock or the stop channel. Its
//! driver performs each [`Action`] and reports the outcome as an [`Event`].
//! A failed step ends the run: the machine is consumed and only the error
//! is left.

use crate::account::{Account, AccountId, BlockNumber};
use crate::observer::{load, loadable, ObservedState};
use crate::operation::{replay, replayable, Operation};
use crate::tree::capacity_of;
use vstd::prelude::*;

verus! {

/// What a look at the stop channel found, without waiting.
#[derive(Clone, Copy, Debug, PartialEq, Eq)]
pub enum StopSignal {
    /// Nothing was sent yet.
    Empty,
    /// A stop was requested.
    Requested,
    /// The sending side is gone and nothing was sent.
    Disconnected,
}

/// The queries that the synchronizer has its driver put to storage.
#[derive(Clone, Copy, Debug, PartialEq, Eq)]
pub enum Query {
    /// The accounts as of the last verified block.
    VerifiedState,
    /// The state keeper's checkpoint, as of the last committed block.
    Checkpoint,
    /// The number of the last verified block.
    LastVerifiedBlock,
    /// The operations of the block of this number.
    BlockOperations(BlockNumber),
    /// What was committed since the checkpoint was last brought up to date.
    CheckpointDiff,
}

/// What the driver reports to the synchronizer.
#[derive(Debug, PartialEq, Eq)]
pub enum Event {
    /// The run begins.
    Start,
    /// Storage returned the verified accounts and the block they belong to.
    VerifiedState { block_number: BlockNumber, accounts: Vec<(AccountId, Account)> },
    /// Storage restored the checkpoint, which stands at this block.
    CheckpointRestored { last_block_number: BlockNumber },
    /// The stop channel was looked at.
    StopChecked(StopSignal),
    /// The pause between two ticks is over.
    Slept,
    /// Storage returned the number of the last verified block. A number
    /// that is not past the tree's block brings nothing new.
    LastVerifiedBlock(BlockNumber),
    /// Storage returned the operations of the block that was asked for.
    BlockOperations(Vec<Operation>),
    /// Storage brought the checkpoint up to date and reports the block it
    /// stands at. The synchronizer keeps the later of this block and the
    /// one it knew.
    CheckpointAdvanced { last_block_number: BlockNumber },
    /// The query that was asked for failed.
    StorageFailed,
}

/// What the synchronizer asks its driver to do next.
#[derive(Clone, Copy, Debug, PartialEq, Eq)]
pub enum Action {
    /// Load the accounts as of the last verified block.
    LoadVerifiedState,
    /// Restore the state keeper's checkpoint.
    RestoreCheckpoint,
    /// Look at the stop channel without waiting.
    CheckStop,
    /// Pause for the polling interval.
    Sleep,
    /// Ask for the number of the last verified block.
    GetLastVerifiedBlock,
    /// Ask for the operations of this block.
    GetBlockOperations(BlockNumber),
    /// Bring the checkpoint up to date.
    LoadCheckpointDiff,
    /// Take the observed state over: the run is complete.
    Finish,
}

/// Progress worth a line in the log.
#[derive(Clone, Copy, Debug, PartialEq, Eq)]
pub enum Notice {
    /// Observer mode is starting.
    Starting,
    /// The account tree now stands at this block.
    CircuitTreeUpdated(BlockNumber),
    /// The state keeper's checkpoint now stands at this block.
    StateKeeperUpdated(BlockNumber),
}

/// The synchronizer's answer to an event.
#[derive(Clone, Copy, Debug, PartialEq, Eq)]
pub struct Reaction {
    /// What to do next.
    pub action: Action,
    /// What to log, if anything.
    pub notice: Option<Notice>,
}

/// Why a run was given up.
#[derive(Clone, Copy, Debug, PartialEq, Eq)]
pub enum SyncError {
    /// This storage query failed.
    Storage(Query),
    /// The stop channel broke before a stop was requested.
    StopChannel,
    /// The verified snapshot holds an account outside the tree's address
    /// space.
    MalformedSnapshot,
    /// The block of this number holds an operation that does not fit the
    /// accounts it is applied to.
    MalformedOperation(BlockNumber),
    /// The event does not answer the action that was asked for.
    UnexpectedEvent,
}

/// Where a run stands: which outcome the synchronizer waits for.
#[derive(Clone, Copy, Debug, PartialEq, Eq)]
pub enum Stage {
    /// Nothing was asked for yet.
    Idle,
    /// Waiting for the verified accounts.
    LoadingVerifiedState,
    /// Waiting for the checkpoint.
    RestoringCheckpoint,
    /// A tick begins: waiting for a look at the stop channel.
    CheckingStop,
    /// Waiting for the pause to end. `exit` says that a stop was requested
    /// and that this tick is the last.
    Sleeping { exit: bool },
    /// Waiting for the number of the last verified block.
    QueryingLastVerified { exit: bool },
    /// Waiting for the operations of block `next`, on the way to block
    /// `target`.
    FetchingBlock { exit: bool, next: BlockNumber, target: BlockNumber },
    /// Waiting for the checkpoint to be brought up to date.
    LoadingCheckpointDiff { exit: bool },
    /// The run is complete.
    Stopped,
}

/// The three states of a run.
#[derive(Clone, Copy, Debug, PartialEq, Eq)]
pub enum Phase {
    /// The initial load is not complete.
    Uninitialized,
    /// Ticks are being made.
    Running,
    /// The last tick was made after a stop request.
    Stopped,
}

impl Stage {
    /// The state of the run that this stage belongs to.
    pub open spec fn phase(self) -> Phase {
        match self {
            Stage::Idle | Stage::LoadingVerifiedState | Stage::RestoringCheckpoint => {
                Phase::Uninitialized
            },
            Stage::Stopped => Phase::Stopped,
            _ => Phase::Running,
        }
    }
}

/// The synchronizer as the contracts see it.
pub struct Model {
    /// What the synchronizer waits for.
    pub stage: Stage,
    /// The leaves stored in the account tree.
    pub leaves: Map<AccountId, Account>,
    /// The depth of the account tree.
    pub depth: u32,
    /// The block that the account tree stands at.
    pub circuit_tree_block: BlockNumber,
    /// The block that the checkpoint stands at.
    pub state_keeper_block: BlockNumber,
}

/// What ties a state together. Until the snapshot is loaded the tree stands
/// at block 0, and until the checkpoint is restored so does the checkpoint.
/// While blocks are being fetched, the block asked for lies past the tree's
/// block and not past the target.
pub open spec fn consistent(m: Model) -> bool {
    match m.stage {
        Stage::Idle | Stage::LoadingVerifiedState => m.circuit_tree_block == 0
            && m.state_keeper_block == 0,
        Stage::RestoringCheckpoint => m.state_keeper_block == 0,
        Stage::FetchingBlock { exit, next, target } => m.circuit_tree_block < next <= target,
        _ => true,
    }
}

/// The later of two block numbers.
pub open spec fn later_of(first: BlockNumber, second: BlockNumber) -> BlockNumber {
    if first < second {
        second
    } else {
        first
    }
}

/// The notice due when a block number was `before` and is `after`: one made
/// by `notice`, if the number changed.
pub open spec fn on_change(before: BlockNumber, after: BlockNumber, notice: Notice) -> Option<
    Notice,
> {
    if before != after {
        Some(notice)
    } else {
        None
    }
}

/// The synchronizer's rule: the state and the answer that follow an event,
/// or the error that ends the run.
pub open spec fn transition(m: Model, event: Event) -> Result<(Model, Reaction), SyncError> {
    match (m.stage, event) {
        (Stage::Idle, Event::Start) => Ok(
            (
                Model { stage: Stage::LoadingVerifiedState, ..m },
                Reaction { action: Action::LoadVerifiedState, notice: Some(Notice::Starting) },
            ),
        ),
        (Stage::LoadingVerifiedState, Event::VerifiedState { block_number, accounts }) => {
            if loadable(capacity_of(m.depth), accounts@) {
                Ok(
                    (
                        Model {
                            stage: Stage::RestoringCheckpoint,
                            leaves: load(m.leaves, accounts@),
                            circuit_tree_block: block_number,
                            ..m
                        },
                        Reaction {
                            action: Action::RestoreCheckpoint,
                            notice: Some(Notice::CircuitTreeUpdated(block_number)),
                        },
                    ),
                )
            } else {
                Err(SyncError::MalformedSnapshot)
            }
        },
        (Stage::LoadingVerifiedState, Event::StorageFailed) => Err(
            SyncError::Storage(Query::VerifiedState),
        ),
        (Stage::RestoringCheckpoint, Event::CheckpointRestored { last_block_number }) => Ok(
            (
                Model { stage: Stage::CheckingStop, state_keeper_block: last_block_number, ..m },
                Reaction {
                    action: Action::CheckStop,
                    notice: Some(Notice::StateKeeperUpdated(last_block_number)),
                },
            ),
        ),
        (Stage::RestoringCheckpoint, Event::StorageFailed) => Err(
            SyncError::Storage(Query::Checkpoint),
        ),
        (Stage::CheckingStop, Event::StopChecked(signal)) => match signal {
            StopSignal::Empty => Ok(
                (
                    Model { stage: Stage::Sleeping { exit: false }, ..m },
                    Reaction { action: Action::Sleep, notice: None },
                ),
            ),
            StopSignal::Requested => Ok(
                (
                    Model { stage: Stage::Sleeping { exit: true }, ..m },
                    Reaction { action: Action::Sleep, notice: None },
                ),
            ),
            StopSignal::Disconnected => Err(SyncError::StopChannel),
        },
        (Stage::Sleeping { exit }, Event::Slept) => Ok(
            (
                Model { stage: Stage::QueryingLastVerified { exit }, ..m },
                Reaction { action: Action::GetLastVerifiedBlock, notice: None },
            ),
        ),
        (Stage::QueryingLastVerified { exit }, Event::LastVerifiedBlock(block_number)) => {
            if m.circuit_tree_block < block_number {
                let next = (m.circuit_tree_block + 1) as BlockNumber;
                Ok(
                    (
                        Model {
                            stage: Stage::FetchingBlock { exit, next, target: block_number },
                            ..m
                        },
                        Reaction { action: Action::GetBlockOperations(next), notice: None },
                    ),
                )
            } else {
                Ok(
                    (
                        Model { stage: Stage::LoadingCheckpointDiff { exit }, ..m },
                        Reaction { action: Action::LoadCheckpointDiff, notice: None },
                    ),
                )
            }
        },
        (Stage::QueryingLastVerified { exit }, Event::StorageFailed) => Err(
            SyncError::Storage(Query::LastVerifiedBlock),
        ),
        (Stage::FetchingBlock { exit, next, target }, Event::BlockOperations(ops)) => {
            if !replayable(m.leaves, capacity_of(m.depth), ops@) {
                Err(SyncError::MalformedOperation(next))
            } else if next < target {
                let following = (next + 1) as BlockNumber;
                Ok(
                    (
                        Model {
                            stage: Stage::FetchingBlock { exit, next: following, target },
                            leaves: replay(m.leaves, ops@),
                            ..m
                        },
                        Reaction { action: Action::GetBlockOperations(following), notice: None },
                    ),
                )
            } else {
                Ok(
                    (
                        Model {
                            stage: Stage::LoadingCheckpointDiff { exit },
                            leaves: replay(m.leaves, ops@),
                            circuit_tree_block: target,
                            ..m
                        },
                        Reaction {
                            action: Action::LoadCheckpointDiff,
                            notice: on_change(
                                m.circuit_tree_block,
                                target,
                                Notice::CircuitTreeUpdated(target),
                            ),
                        },
                    ),
                )
            }
        },
        (Stage::FetchingBlock { exit, next, target }, Event::StorageFailed) => Err(
            SyncError::Storage(Query::BlockOperations(next)),
        ),
        (Stage::LoadingCheckpointDiff { exit }, Event::CheckpointAdvanced { last_block_number }) => {
            let reached = later_of(m.state_keeper_block, last_block_number);
            let notice = on_change(
                m.state_keeper_block,
                reached,
                Notice::StateKeeperUpdated(reached),
            );
            if exit {
                Ok(
                    (
                        Model { stage: Stage::Stopped, state_keeper_block: reached, ..m },
                        Reaction { action: Action::Finish, notice },
                    ),
                )
            } else {
                Ok(
                    (
                        Model { stage: Stage::CheckingStop, state_keeper_block: reached, ..m },
                        Reaction { action: Action::CheckStop, notice },
                    ),
                )
            }
        },
        (Stage::LoadingCheckpointDiff { exit }, Event::StorageFailed) => Err(
            SyncError::Storage(Query::CheckpointDiff),
        ),
        _ => Err(SyncError::UnexpectedEvent),
    }
}

/// The observer-mode synchronizer. Its state is consistent at all times, and
/// neither of its block numbers ever decreases.
#[derive(Debug)]
pub struct Synchronizer {
    stage: Stage,
    state: ObservedState,
}

impl View for Synchronizer {
    type V = Model;

    closed spec fn view(&self) -> Model {
        Model {
            stage: self.stage,
            leaves: self.state.circuit_acc_tree@,
            depth: self.state.circuit_acc_tree.depth(),
            circuit_tree_block: self.state.circuit_tree_block,
            state_keeper_block: self.state.state_keeper_block,
        }
    }
}

/// The log line due, if any, when a block number was `before` and is
/// `after`.
fn notice_on_change(before: BlockNumber, after: BlockNumber, notice: Notice) -> (due: Option<Notice>)
    ensures
        due == on_change(before, after, notice),
{
    if before != after {
        Some(notice)
    } else {
        None
    }
}

impl Synchronizer {
    #[verifier::type_invariant]
    spec fn holds_together(self) -> bool {
        consistent(self@)
    }

    /// A synchronizer that has not started, over an empty account tree of
    /// the given depth.
    pub fn new(tree_depth: u32) -> (sync: Synchronizer)
        ensures
            sync@ == (Model {
                stage: Stage::Idle,
                leaves: Map::<AccountId, Account>::empty(),
                depth: tree_depth,
                circuit_tree_block: 0,
                state_keeper_block: 0,
            }),
    {
        Synchronizer { stage: Stage::Idle, state: ObservedState::new(tree_depth) }
    }

    /// What the synchronizer waits for.
    pub fn stage(&self) -> (stage: Stage)
        ensures
            stage == self@.stage,
            consistent(self@),
    {
        proof {
            use_type_invariant(self);
        }
        self.stage
    }

    /// The state of the run.
    pub fn phase(&self) -> (phase: Phase)
        ensures
            phase == self@.stage.phase(),
    {
        match self.stage {
            Stage::Idle | Stage::LoadingVerifiedState | Stage::RestoringCheckpoint => {
                Phase::Uninitialized
            },
            Stage::Stopped => Phase::Stopped,
            _ => Phase::Running,
        }
    }

    /// The state observed so far.
    pub fn state(&self) -> (state: &ObservedState)
        ensures
            state.circuit_acc_tree@ == self@.leaves,
            state.circuit_acc_tree.depth() == self@.depth,
            state.circuit_tree_block == self@.circuit_tree_block,
            state.state_keeper_block == self@.state_keeper_block,
    {
        &self.state
    }

    /// Hands the observed state over, once the run is complete.
    pub fn into_observed_state(self) -> (handoff: Option<ObservedState>)
        ensures
            handoff is Some <==> self@.stage == Stage::Stopped,
            handoff matches Some(state) ==> {
                &&& state.circuit_acc_tree@ == self@.leaves
                &&& state.circuit_acc_tree.depth() == self@.depth
                &&& state.circuit_tree_block == self@.circuit_tree_block
                &&& state.state_keeper_block == self@.state_keeper_block
            },
    {
        match self.stage {
            Stage::Stopped => Some(self.state),
            _ => None,
        }
    }

    /// Takes in what happened and answers what to do next.
    pub fn step(self, event: Event) -> (done: Result<(Synchronizer, Reaction), SyncError>)
        ensures
            match transition(self@, event) {
                Ok((model, reaction)) => done matches Ok((next, reply)) && next@ == model && reply
                    == reaction,
                Err(error) => done matches Err(e) && e == error,
            },
    {
        proof {
            use_type_invariant(&self);
        }
        let Synchronizer { stage, state } = self;
        let mut state = state;
        match (stage, event) {
            (Stage::Idle, Event::Start) => Ok(
                (
                    Synchronizer { stage: Stage::LoadingVerifiedState, state },
                    Reaction { action: Action::LoadVerifiedState, notice: Some(Notice::Starting) },
                ),
            ),
            (Stage::LoadingVerifiedState, Event::VerifiedState { block_number, accounts }) => {
                match state.first_out_of_range(&accounts) {
                    Some(_) => Err(SyncError::MalformedSnapshot),
                    None => {
                        state.init_circuit_tree(block_number, accounts);
                        Ok(
                            (
                                Synchronizer { stage: Stage::RestoringCheckpoint, state },
                                Reaction {
                                    action: Action::RestoreCheckpoint,
                                    notice: Some(Notice::CircuitTreeUpdated(block_number)),
                                },
                            ),
                        )
                    },
                }
            },
            (Stage::LoadingVerifiedState, Event::StorageFailed) => Err(
                SyncError::Storage(Query::VerifiedState),
            ),
            (Stage::RestoringCheckpoint, Event::CheckpointRestored { last_block_number }) => {
                state.state_keeper_block = last_block_number;
                Ok(
                    (
                        Synchronizer { stage: Stage::CheckingStop, state },
                        Reaction {
                            action: Action::CheckStop,
                            notice: Some(Notice::StateKeeperUpdated(last_block_number)),
                        },
                    ),
                )
            },
            (Stage::RestoringCheckpoint, Event::StorageFailed) => Err(
                SyncError::Storage(Query::Checkpoint),
            ),
            (Stage::CheckingStop, Event::StopChecked(signal)) => {
                let exit = match signal {
                    StopSignal::Empty => false,
                    StopSignal::Requested => true,
                    StopSignal::Disconnected => {
                        return Err(SyncError::StopChannel);
                    },
                };
                Ok(
                    (
                        Synchronizer { stage: Stage::Sleeping { exit }, state },
                        Reaction { action: Action::Sleep, notice: None },
                    ),
                )
            },
            (Stage::Sleeping { exit }, Event::Slept) => Ok(
                (
                    Synchronizer { stage: Stage::QueryingLastVerified { exit }, state },
                    Reaction { action: Action::GetLastVerifiedBlock, notice: None },
                ),
            ),
            (Stage::QueryingLastVerified { exit }, Event::LastVerifiedBlock(block_number)) => {
                let before = state.circuit_tree_block;
                if before < block_number {
                    let next: BlockNumber = before + 1;
                    Ok(
                        (
                            Synchronizer {
                                stage: Stage::FetchingBlock { exit, next, target: block_number },
                                state,
                            },
                            Reaction { action: Action::GetBlockOperations(next), notice: None },
                        ),
                    )
                } else {
                    Ok(
                        (
                            Synchronizer { stage: Stage::LoadingCheckpointDiff { exit }, state },
                            Reaction { action: Action::LoadCheckpointDiff, notice: None },
                        ),
                    )
                }
            },
            (Stage::QueryingLastVerified { exit }, Event::StorageFailed) => Err(
                SyncError::Storage(Query::LastVerifiedBlock),
            ),
            (Stage::FetchingBlock { exit, next, target }, Event::BlockOperations(ops)) => {
                match state.try_apply(&ops) {
                    Err(_) => Err(SyncError::MalformedOperation(next)),
                    Ok(()) => {
                        if next < target {
                            let following: BlockNumber = next + 1;
                            Ok(
                                (
                                    Synchronizer {
                                        stage: Stage::FetchingBlock {
                                            exit,
                                            next: following,
                                            target,
                                        },
                                        state,
                                    },
                                    Reaction {
                                        action: Action::GetBlockOperations(following),
                                        notice: None,
                                    },
                                ),
                            )
                        } else {
                            let before = state.circuit_tree_block;
                            state.circuit_tree_block = target;
                            Ok(
                                (
                                    Synchronizer {
                                        stage: Stage::LoadingCheckpointDiff { exit },
                                        state,
                                    },
                                    Reaction {
                                        action: Action::LoadCheckpointDiff,
                                        notice: notice_on_change(
                                            before,
                                            target,
                                            Notice::CircuitTreeUpdated(target),
                                        ),
                                    },
                                ),
                            )
                        }
                    },
                }
            },
            (Stage::FetchingBlock { exit, next, target }, Event::StorageFailed) => Err(
                SyncError::Storage(Query::BlockOperations(next)),
            ),
            (
                Stage::LoadingCheckpointDiff { exit },
                Event::CheckpointAdvanced { last_block_number },
            ) => {
                let before = state.state_keeper_block;
                let reached = if before < last_block_number {
                    last_block_number
                } else {
                    before
                };
                let notice = notice_on_change(
                    before,
                    reached,
                    Notice::StateKeeperUpdated(reached),
                );
                state.state_keeper_block = reached;
                if exit {
                    Ok(
                        (
                            Synchronizer { stage: Stage::Stopped, state },
                            Reaction { action: Action::Finish, notice },
                        ),
                    )
                } else {
                    Ok(
                        (
                            Synchronizer { stage: Stage::CheckingStop, state },
                            Reaction { action: Action::CheckStop, notice },
                        ),
                    )
                }
            },
            (Stage::LoadingCheckpointDiff { exit }, Event::StorageFailed) => Err(
                SyncError::Storage(Query::CheckpointDiff),
            ),
            _ => Err(SyncError::UnexpectedEvent),
        }
    }
}

} // verus!
