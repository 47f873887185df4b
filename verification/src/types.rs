//! The records that the pallet stores, the calls it accepts, the events it
//! emits and the errors it returns.
//!
//! Accounts are 32-byte account ids and balances are 128-bit amounts.

use vstd::prelude::*;
use frame_support::traits::ConstU32;
use frame_support::BoundedVec;

verus! {

/// A 32-byte account id, as the little-endian values of its first and its
/// last sixteen bytes.
pub type AccountId = (u128, u128);

/// An amount of the native currency.
pub type Balance = u128;

/// A block number.
pub type BlockNumber = u64;

/// Where a proposal stands.
#[derive(Debug, Clone, Copy, PartialEq, Eq, Structural)]
pub enum ProposalStatue {
    /// Members are still voting on it.
    Processing,
    /// It passed, and its payment is being transferred.
    Transfering,
    /// Its payments are complete.
    AllDone,
}

/// A request for payment out of an organisation's treasury.
#[derive(Debug, PartialEq, Eq)]
pub struct Proposal {
    pub proposer: AccountId,
    pub votes: u128,
    pub approve_votes: u128,
    pub deny_votes: u128,
    pub details: BoundedVec<u8, ConstU32<2048>>,
    pub org_id: u64,
    pub recipe_id: u128,
    pub statue: ProposalStatue,
    pub payment_requested: Balance,
    pub payment_frequency: u32,
}

/// An organisation: a named treasury with members.
#[derive(Debug, PartialEq, Eq)]
pub struct Org {
    pub name: BoundedVec<u8, ConstU32<128>>,
    pub member_count: u64,
    pub total_shares: Balance,
    pub treasury_id: AccountId,
}

/// A member's stake in an organisation: what it has donated in all.
#[derive(Debug, Clone, Copy, PartialEq, Eq, Structural)]
pub struct Member {
    pub shares: Balance,
}

/// What makes a recipe fire.
#[derive(Debug, Clone, Copy, PartialEq, Eq, Structural)]
pub enum Triger {
    /// `Timer(insert_time, timer_seconds, max_times)`: fires once every
    /// `timer_seconds` seconds after `insert_time`.
    Timer(u64, u64, u64),
}

/// What a recipe does when it fires.
#[derive(Debug, Clone, Copy, PartialEq, Eq)]
pub enum Action {
    /// `TranferToken(org_id, proposal_id, reciver, amount)`: pays `amount`
    /// from the organisation's treasury to `reciver`.
    TranferToken(u64, u64, AccountId, Balance),
}

/// A trigger tied to an action, with a count of how often it fired.
#[derive(Debug, Clone, Copy, PartialEq, Eq, Structural)]
pub struct Recipe {
    pub triger_id: u64,
    pub action_id: u64,
    pub enable: bool,
    pub times: u64,
    pub max_times: u64,
    pub done: bool,
    pub last_triger_timestamp: u64,
    pub force_stop: bool,
}

/// What the pallet reports of its work.
#[derive(Debug, PartialEq, Eq)]
pub enum Event {
    /// `(something, who)`
    SomethingStored(u32, AccountId),
    /// `(who, name, amount)`
    Summoned(AccountId, Vec<u8>, Balance),
    /// `(who, org_id, amount)`
    Donated(AccountId, u64, Balance),
    /// `(who, org_id, payment_requested, detail)`
    ProposalSubmited(AccountId, u64, Balance, Vec<u8>),
    /// `(who, org_id, proposal_id)`
    VoteSubmited(AccountId, u64, u64),
    /// `(org_id, proposal_id, payment_requested)`
    Transfering(u64, u64, Balance),
    /// `(org_id, proposal_id, times, from, to, amount)`
    TransferFrequency(u64, u64, u64, AccountId, AccountId, Balance),
    /// `(recipe_id)`
    RecipeDone(u64),
    /// `(recipe_id, times, timestamp)`
    RecipeTrigerTimesUpdated(u64, u64, u64),
}

/// The pallet's own errors.
#[derive(Debug, Clone, Copy, PartialEq, Eq, Structural)]
pub enum Error {
    NoneValue,
    StorageOverflow,
    OrgIdMustExist,
    AccountMustInOrg,
    ProposalIdMustExist,
    ProposalMustInProcessing,
    OffchainUnsignedTxError,
    RecipeIdNotExist,
}

/// Why a call was refused.
#[derive(Debug, Clone, Copy, PartialEq, Eq, Structural)]
pub enum DispatchError {
    /// The call came from an origin that it does not accept.
    BadOrigin,
    /// One of the pallet's own errors.
    Module(Error),
}

/// Who sends a call.
#[derive(Debug, Clone, Copy, PartialEq, Eq)]
pub enum Origin {
    /// The root origin.
    Root,
    /// A signed transaction's sender.
    Signed(AccountId),
    /// An unsigned transaction, which has no sender.
    Unsigned,
}

/// A transfer of the native currency, keeping the sender alive, that a call
/// asks the runtime's currency to make. The pallet ignores its outcome.
#[derive(Debug, Clone, Copy, PartialEq, Eq)]
pub struct Transfer {
    pub from: AccountId,
    pub to: AccountId,
    pub amount: Balance,
}

/// The calls of the pallet.
#[derive(Debug, PartialEq, Eq)]
pub enum Call {
    DoSomething { something: u32 },
    CauseError,
    Summon { name: Vec<u8>, amount: Balance },
    Donate { org_id: u64, amount: Balance },
    SubmitProposal { org_id: u64, payment_requested: Balance, detail: Vec<u8> },
    SubmitVote { org_id: u64, proposal_id: u64, vote_unit: u8 },
    StopProposalTransfer { org_id: u64, proposal_index: u64 },
    SetRecipeDoneUnsigned { block_number: BlockNumber, recipe_id: u64 },
    UpdateRecipeTrigerTimesUnsigned {
        block_number: BlockNumber,
        recipe_id: u64,
        times: u64,
        timestamp: u64,
    },
    TranferUnsigned {
        org_id: u64,
        proposal_id: u64,
        times: u64,
        block_number: BlockNumber,
        reciver: AccountId,
        amount: Balance,
    },
}

pub type DispatchResult = Result<(), DispatchError>;

} // verus!
