//! Lockup-contract analysis: decoding a lockup contract's persisted state,
//! detecting deployments with the historical release-schedule defect, and
//! computing how many tokens are still locked at a given timestamp.

use vstd::prelude::*;

pub mod account;
pub mod bug;
pub mod calc;
pub mod decode;
pub mod engine;
pub mod laws;
pub mod text;

verus! {

/// A vesting schedule attached to a lockup contract.
#[derive(Debug)]
pub enum VestingSchedule {
    /// No vesting: the full amount counts as vested from the start.
    Unset,
    /// Cliff-then-linear vesting: nothing is vested before `cliff`, the
    /// vested amount then grows linearly along the line anchored at `start`
    /// and reaches the full amount at `end`.
    Timed { start: u64, cliff: u64, end: u64 },
    /// A schedule that was committed to by hash but never disclosed; it
    /// cannot gate the release, so the full amount counts as vested.
    Committed { hash: Vec<u8> },
}

/// Decoded snapshot of one account's lockup contract at a block height.
#[derive(Debug)]
pub struct LockupContractState {
    /// Account entitled to eventually withdraw, as raw identity bytes.
    pub owner: Vec<u8>,
    /// Total tokens ever placed under lockup, in the smallest token unit.
    pub lockup_amount: u128,
    /// Seconds from the release start until full release absent a
    /// linear-release window.
    pub lockup_duration: u64,
    /// Start instant of the release; when unset, release is gated on the
    /// `transfers_enabled` instant instead.
    pub lockup_timestamp: Option<u64>,
    /// Linear-release window: when present, the amount unlocks linearly
    /// over this many seconds from the release start.
    pub release_duration: Option<u64>,
    /// The vesting condition that must clear alongside the release.
    pub vesting_schedule: VestingSchedule,
    /// Instant at which foundation-wide transfers became permitted.
    pub transfers_enabled: Option<u64>,
    /// Tokens clawed back by an early termination of the vesting relation.
    pub terminated_unvested_amount: u128,
    /// Whitelist contract the lockup may delegate stake to.
    pub staking_pool_whitelist_account: Vec<u8>,
}

impl LockupContractState {
    /// Well-formedness established by the decoder: amounts are consistent,
    /// a timed schedule keeps its cliff inside `[start, end]`, and a
    /// committed schedule hash has the full 32 bytes.
    pub open spec fn wf(&self) -> bool {
        model_wf(self@)
    }
}

/// Mathematical mirror of [`VestingSchedule`].
pub ghost enum VestingModel {
    Unset,
    Timed { start: u64, cliff: u64, end: u64 },
    Committed { hash: Seq<u8> },
}

/// Mathematical mirror of [`LockupContractState`].
pub ghost struct StateModel {
    pub owner: Seq<u8>,
    pub lockup_amount: u128,
    pub lockup_duration: u64,
    pub lockup_timestamp: Option<u64>,
    pub release_duration: Option<u64>,
    pub vesting_schedule: VestingModel,
    pub transfers_enabled: Option<u64>,
    pub terminated_unvested_amount: u128,
    pub staking_pool_whitelist_account: Seq<u8>,
}

impl View for VestingSchedule {
    type V = VestingModel;

    open spec fn view(&self) -> VestingModel {
        match self {
            VestingSchedule::Unset => VestingModel::Unset,
            VestingSchedule::Timed { start, cliff, end } => VestingModel::Timed {
                start: *start,
                cliff: *cliff,
                end: *end,
            },
            VestingSchedule::Committed { hash } => VestingModel::Committed { hash: hash@ },
        }
    }
}

impl View for LockupContractState {
    type V = StateModel;

    open spec fn view(&self) -> StateModel {
        StateModel {
            owner: self.owner@,
            lockup_amount: self.lockup_amount,
            lockup_duration: self.lockup_duration,
            lockup_timestamp: self.lockup_timestamp,
            release_duration: self.release_duration,
            vesting_schedule: self.vesting_schedule@,
            transfers_enabled: self.transfers_enabled,
            terminated_unvested_amount: self.terminated_unvested_amount,
            staking_pool_whitelist_account: self.staking_pool_whitelist_account@,
        }
    }
}

/// The documented invariants a decoded state must satisfy.
pub open spec fn model_wf(m: StateModel) -> bool {
    &&& m.terminated_unvested_amount <= m.lockup_amount
    &&& match m.vesting_schedule {
        VestingModel::Unset => true,
        VestingModel::Timed { start, cliff, end } => start <= cliff <= end,
        VestingModel::Committed { hash } => hash.len() == 32,
    }
}

} // verus!
