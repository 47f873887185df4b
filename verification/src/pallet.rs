//! The pallet's storage and its calls.
//!
//! `Pallet` holds what the pallet keeps in on-chain storage, plus the events
//! that it has emitted, in the order they came. Each call checks its origin
//! and its arguments, and either fails with the storage left as it was, or
//! updates the storage and emits its events. A call that asks the runtime's
//! currency to move funds returns the `Transfer` to make.

use vstd::prelude::*;
use std::collections::{BTreeMap, BTreeSet};
use crate::account::{org_treasury, pallet_sub_account};
use crate::laws::{
    call_step, consistent, payouts_unique, recipe_updated, vote_passes_at_two_thirds,
};
use crate::bounded::{bound_detail, bound_name, detail_bytes, name_bytes};
use crate::types::{
    AccountId, Action, Balance, BlockNumber, DispatchError, DispatchResult, Error, Event, Member, Org,
    Origin, Proposal, ProposalStatue, Recipe, Transfer, Triger,
};

verus! {

/// A value kept under an optional storage item, or zero where there is none.
pub open spec fn or_zero(o: Option<u64>) -> u64 {
    match o {
        Some(v) => v,
        None => 0,
    }
}

/// The id after `id`, staying at `u64::MAX` once there.
pub open spec fn saturating_next(id: u64) -> u64 {
    if id == u64::MAX {
        u64::MAX
    } else {
        (id + 1) as u64
    }
}

/// The next id kept in a map of counters, zero where the map holds none.
pub open spec fn counter_at(m: Map<u64, u64>, k: u64) -> u64 {
    if m.contains_key(k) {
        m[k]
    } else {
        0
    }
}

/// Who signed a call, if anyone did.
pub open spec fn signer(origin: Origin) -> Option<AccountId> {
    match origin {
        Origin::Signed(who) => Some(who),
        _ => None,
    }
}

/// The pallet's storage, taken as plain values.
#[verifier::ext_equal]
pub struct PalletView {
    pub pallet_id: Seq<u8>,
    pub unsigned_priority: u64,
    pub something: Option<u32>,
    pub next_org_id: Option<u64>,
    pub orgs: Map<u64, Org>,
    pub members: Map<(u64, AccountId), Member>,
    pub member_orgs: Set<(AccountId, u64)>,
    pub next_proposal_id: Map<u64, u64>,
    pub proposals: Map<(u64, u64), Proposal>,
    pub triger_owner: Set<(AccountId, u64)>,
    pub action_owner: Set<(AccountId, u64)>,
    pub recipe_owner: Set<(AccountId, u64)>,
    pub trigers: Map<u64, Triger>,
    pub actions: Map<u64, Action>,
    pub recipes: Map<u64, Recipe>,
    pub next_triger_id: Option<u64>,
    pub next_action_id: Option<u64>,
    pub next_recipe_id: Option<u64>,
    pub events: Seq<Event>,
}

/// The pallet: its configuration, its storage and the events it emitted.
pub struct Pallet {
    pallet_id: [u8; 8],
    unsigned_priority: u64,
    something: Option<u32>,
    next_org_id: Option<u64>,
    map_org: BTreeMap<u64, Org>,
    members: BTreeMap<(u64, AccountId), Member>,
    member_orgs: BTreeSet<(AccountId, u64)>,
    next_proposal_id: BTreeMap<u64, u64>,
    proposals: BTreeMap<(u64, u64), Proposal>,
    triger_owner: BTreeSet<(AccountId, u64)>,
    action_owner: BTreeSet<(AccountId, u64)>,
    recipe_owner: BTreeSet<(AccountId, u64)>,
    map_triger: BTreeMap<u64, Triger>,
    map_action: BTreeMap<u64, Action>,
    map_recipe: BTreeMap<u64, Recipe>,
    next_triger_id: Option<u64>,
    next_action_id: Option<u64>,
    next_recipe_id: Option<u64>,
    events: Vec<Event>,
}

impl View for Pallet {
    type V = PalletView;

    closed spec fn view(&self) -> PalletView {
        PalletView {
            pallet_id: self.pallet_id@,
            unsigned_priority: self.unsigned_priority,
            something: self.something,
            next_org_id: self.next_org_id,
            orgs: self.map_org@,
            members: self.members@,
            member_orgs: self.member_orgs@,
            next_proposal_id: self.next_proposal_id@,
            proposals: self.proposals@,
            triger_owner: self.triger_owner@,
            action_owner: self.action_owner@,
            recipe_owner: self.recipe_owner@,
            trigers: self.map_triger@,
            actions: self.map_action@,
            recipes: self.map_recipe@,
            next_triger_id: self.next_triger_id,
            next_action_id: self.next_action_id,
            next_recipe_id: self.next_recipe_id,
            events: self.events@,
        }
    }
}

/// `ensure_signed`: the signer of a signed origin, and `BadOrigin` for any other.
fn ensure_signed(origin: Origin) -> (r: Result<AccountId, DispatchError>)
    ensures
        match origin {
            Origin::Signed(who) => r == Ok::<AccountId, DispatchError>(who),
            _ => r == Err::<AccountId, DispatchError>(DispatchError::BadOrigin),
        },
{
    match origin {
        Origin::Signed(who) => Ok(who),
        _ => Err(DispatchError::BadOrigin),
    }
}

/// `ensure_none`: success for the origin of an unsigned transaction, and
/// `BadOrigin` for any other.
fn ensure_none(origin: Origin) -> (r: DispatchResult)
    ensures
        r is Ok <==> origin == Origin::Unsigned,
        r is Err ==> r == Err::<(), DispatchError>(DispatchError::BadOrigin),
{
    match origin {
        Origin::Unsigned => Ok(()),
        _ => Err(DispatchError::BadOrigin),
    }
}

/// `id.saturating_add(1)`.
fn next_after(id: u64) -> (r: u64)
    ensures
        r == saturating_next(id),
{
    id.saturating_add(1)
}

/// The value of an optional id counter, zero where it is unset.
fn unwrap_or_zero(o: Option<u64>) -> (r: u64)
    ensures
        r == or_zero(o),
{
    match o {
        Some(v) => v,
        None => 0,
    }
}

impl Pallet {
    /// A pallet with the given pallet id and priority for unsigned
    /// transactions, and empty storage.
    pub fn new(pallet_id: [u8; 8], unsigned_priority: u64) -> (p: Pallet)
        ensures
            p@ == (PalletView {
                pallet_id: pallet_id@,
                unsigned_priority,
                something: None,
                next_org_id: None,
                orgs: Map::empty(),
                members: Map::empty(),
                member_orgs: Set::empty(),
                next_proposal_id: Map::empty(),
                proposals: Map::empty(),
                triger_owner: Set::empty(),
                action_owner: Set::empty(),
                recipe_owner: Set::empty(),
                trigers: Map::empty(),
                actions: Map::empty(),
                recipes: Map::empty(),
                next_triger_id: None,
                next_action_id: None,
                next_recipe_id: None,
                events: Seq::empty(),
            }),
            consistent(p@),
            payouts_unique(p@),
    {
        Pallet {
            pallet_id,
            unsigned_priority,
            something: None,
            next_org_id: None,
            map_org: BTreeMap::new(),
            members: BTreeMap::new(),
            member_orgs: BTreeSet::new(),
            next_proposal_id: BTreeMap::new(),
            proposals: BTreeMap::new(),
            triger_owner: BTreeSet::new(),
            action_owner: BTreeSet::new(),
            recipe_owner: BTreeSet::new(),
            map_triger: BTreeMap::new(),
            map_action: BTreeMap::new(),
            map_recipe: BTreeMap::new(),
            next_triger_id: None,
            next_action_id: None,
            next_recipe_id: None,
            events: Vec::new(),
        }
    }

    /// The treasury account of an organisation.
    pub fn org_account(&self, org_id: u64) -> (r: AccountId)
        ensures
            r == org_treasury(self@.pallet_id, org_id),
    {
        pallet_sub_account(self.pallet_id, org_id)
    }

    /// Stores `something` and emits `SomethingStored`; refuses an unsigned
    /// origin.
    pub fn do_something(&mut self, origin: Origin, something: u32) -> (r: DispatchResult)
        ensures
            match origin {
                Origin::Signed(who) => {
                    &&& r is Ok
                    &&& final(self)@ == (PalletView {
                        something: Some(something),
                        events: old(self)@.events.push(Event::SomethingStored(something, who)),
                        ..old(self)@
                    })
                },
                _ => r == Err::<(), DispatchError>(DispatchError::BadOrigin) && final(self)@
                    == old(self)@,
            },
            call_step(old(self)@, final(self)@),
    {
        let who = ensure_signed(origin)?;
        self.something = Some(something);
        self.events.push(Event::SomethingStored(something, who));
        Ok(())
    }

    /// Adds one to the stored value: fails with `NoneValue` where none is
    /// stored, and with `StorageOverflow` where it is `u32::MAX`.
    pub fn cause_error(&mut self, origin: Origin) -> (r: DispatchResult)
        ensures
            origin !is Signed ==> r == Err::<(), DispatchError>(DispatchError::BadOrigin),
            origin is Signed && old(self)@.something is None ==> r == Err::<(), DispatchError>(
                DispatchError::Module(Error::NoneValue),
            ),
            origin is Signed && old(self)@.something == Some(u32::MAX) ==> r == Err::<
                (),
                DispatchError,
            >(DispatchError::Module(Error::StorageOverflow)),
            r is Ok <==> origin is Signed && old(self)@.something is Some
                && old(self)@.something->0 < u32::MAX,
            r is Ok ==> final(self)@ == (PalletView {
                something: Some((old(self)@.something->0 + 1) as u32),
                ..old(self)@
            }),
            r is Err ==> final(self)@ == old(self)@,
            call_step(old(self)@, final(self)@),
    {
        let _who = ensure_signed(origin)?;
        match self.something {
            None => Err(DispatchError::Module(Error::NoneValue)),
            Some(old) => {
                let new = match old.checked_add(1) {
                    Some(v) => v,
                    None => {
                        return Err(DispatchError::Module(Error::StorageOverflow));
                    },
                };
                self.something = Some(new);
                Ok(())
            },
        }
    }
    /// Founds an organisation under the next organisation id, with the
    /// signer as its only member holding `amount` shares, and asks for
    /// `amount` to be moved from the signer to the organisation's treasury.
    pub fn summon(&mut self, origin: Origin, name: Vec<u8>, amount: Balance) -> (r: Result<
        Transfer,
        DispatchError,
    >)
        requires
            origin is Signed ==> name@.len() <= 128,
        ensures
            origin !is Signed ==> r == Err::<Transfer, DispatchError>(DispatchError::BadOrigin)
                && final(self)@ == old(self)@,
            origin is Signed ==> summoned(old(self)@, final(self)@, origin->Signed_0, name@, amount, r),
            call_step(old(self)@, final(self)@),
    {
        let who = ensure_signed(origin)?;
        let next_org_id = unwrap_or_zero(self.next_org_id);
        let treasury = self.org_account(next_org_id);
        let transfer = Transfer { from: who, to: treasury, amount };
        let event_name = name.clone();
        proof {
            assert(event_name@ =~= name@);
        }
        let bounded = match bound_name(name) {
            Ok(b) => b,
            Err(_) => {
                proof {
                    assert(false);
                }
                return Err(DispatchError::BadOrigin);
            },
        };
        let org = Org { name: bounded, member_count: 1, total_shares: amount, treasury_id: treasury };
        self.map_org.insert(next_org_id, org);
        self.members.insert((next_org_id, who), Member { shares: amount });
        self.member_orgs.insert((who, next_org_id));
        self.next_org_id = Some(next_after(next_org_id));
        self.events.push(Event::Summoned(who, event_name, amount));
        Ok(transfer)
    }

    /// Adds `amount` to the signer's shares in an organisation, making the
    /// signer a member where it was not one, and asks for `amount` to be moved
    /// from the signer to the organisation's treasury.
    pub fn donate(&mut self, origin: Origin, org_id: u64, amount: Balance) -> (r: Result<
        Transfer,
        DispatchError,
    >)
        requires
            origin is Signed && old(self)@.orgs.contains_key(org_id) ==> donation_fits(
                old(self)@,
                origin->Signed_0,
                org_id,
                amount,
            ),
        ensures
            origin !is Signed ==> r == Err::<Transfer, DispatchError>(DispatchError::BadOrigin),
            origin is Signed && !old(self)@.orgs.contains_key(org_id) ==> r == Err::<
                Transfer,
                DispatchError,
            >(DispatchError::Module(Error::OrgIdMustExist)),
            r is Err ==> final(self)@ == old(self)@,
            origin is Signed && old(self)@.orgs.contains_key(org_id) ==> donated(
                old(self)@,
                final(self)@,
                origin->Signed_0,
                org_id,
                amount,
                r,
            ),
            call_step(old(self)@, final(self)@),
    {
        let who = ensure_signed(origin)?;
        if !self.map_org.contains_key(&org_id) {
            return Err(DispatchError::Module(Error::OrgIdMustExist));
        }
        let transfer = Transfer { from: who, to: self.org_account(org_id), amount };
        let org = self.map_org.remove(&org_id).unwrap();
        let is_member = self.members.contains_key(&(org_id, who));
        let member_count_add: u64 = if is_member { 0 } else { 1 };
        let new_org = Org {
            member_count: org.member_count + member_count_add,
            total_shares: org.total_shares + amount,
            ..org
        };
        self.map_org.insert(org_id, new_org);
        let member = match self.members.get(&(org_id, who)) {
            Some(v) => Member { shares: v.shares + amount },
            None => Member { shares: amount },
        };
        self.members.insert((org_id, who), member);
        self.member_orgs.insert((who, org_id));
        self.events.push(Event::Donated(who, org_id, amount));
        proof {
            assert(donated(old(self)@, self@, who, org_id, amount, Ok(transfer)));
        }
        Ok(transfer)
    }
    /// Files a proposal, by anyone, for a payment out of an existing
    /// organisation, under that organisation's next proposal id.
    pub fn submit_proposal(
        &mut self,
        origin: Origin,
        org_id: u64,
        payment_requested: Balance,
        detail: Vec<u8>,
    ) -> (r: DispatchResult)
        requires
            origin is Signed && old(self)@.orgs.contains_key(org_id) ==> detail@.len() <= 2048,
        ensures
            origin !is Signed ==> r == Err::<(), DispatchError>(DispatchError::BadOrigin),
            origin is Signed && !old(self)@.orgs.contains_key(org_id) ==> r == Err::<
                (),
                DispatchError,
            >(DispatchError::Module(Error::OrgIdMustExist)),
            r is Err ==> final(self)@ == old(self)@,
            origin is Signed && old(self)@.orgs.contains_key(org_id) ==> proposal_submitted(
                old(self)@,
                final(self)@,
                origin->Signed_0,
                org_id,
                payment_requested,
                detail@,
            ) && r is Ok,
            call_step(old(self)@, final(self)@),
    {
        let ghost detail_view = detail@;
        let who = ensure_signed(origin)?;
        if !self.map_org.contains_key(&org_id) {
            return Err(DispatchError::Module(Error::OrgIdMustExist));
        }
        let next_proposal_id = match self.next_proposal_id.get(&org_id) {
            Some(v) => *v,
            None => 0,
        };
        let event_detail = detail.clone();
        proof {
            assert(event_detail@ =~= detail@);
        }
        let details = match bound_detail(detail) {
            Ok(b) => b,
            Err(_) => {
                proof {
                    assert(false);
                }
                return Err(DispatchError::BadOrigin);
            },
        };
        let proposal = Proposal {
            proposer: who,
            votes: 0,
            approve_votes: 0,
            deny_votes: 0,
            details,
            org_id,
            recipe_id: 0,
            statue: ProposalStatue::Processing,
            payment_requested,
            payment_frequency: 12,
        };
        self.proposals.insert((org_id, next_proposal_id), proposal);
        self.next_proposal_id.insert(org_id, next_after(next_proposal_id));
        self.events.push(Event::ProposalSubmited(who, org_id, payment_requested, event_detail));
        proof {
            assert(proposal_submitted(old(self)@, self@, who, org_id, payment_requested, detail_view));
        }
        Ok(())
    }

    /// Counts a member's vote on a proposal that is still open: a `vote_unit`
    /// of 0 approves, 1 denies, any other counts toward the total only. The
    /// vote that takes the total above two thirds of the member count (rounded
    /// down to a multiple of two) passes the proposal, which then pays out
    /// through a new recipe: a timer started at `now`, firing every 60
    /// seconds, tied to a transfer of the requested payment to the proposer.
    pub fn submit_vote(
        &mut self,
        origin: Origin,
        org_id: u64,
        proposal_id: u64,
        vote_unit: u8,
        now: u64,
    ) -> (r: DispatchResult)
        requires
            vote_accepted(old(self)@, signer(origin), org_id, proposal_id) ==> vote_fits(
                old(self)@.proposals[(org_id, proposal_id)],
                vote_unit,
            ),
        ensures
            r == vote_outcome(old(self)@, signer(origin), org_id, proposal_id),
            r is Err ==> final(self)@ == old(self)@,
            r is Ok ==> voted(
                old(self)@,
                final(self)@,
                origin->Signed_0,
                org_id,
                proposal_id,
                vote_unit,
                now,
            ),
            r is Ok ==> (final(self)@.proposals[(org_id, proposal_id)].statue
                == ProposalStatue::Transfering <==> old(self)@.proposals[(
                org_id,
                proposal_id,
            )].votes + 1 > old(self)@.orgs[org_id].member_count / 3 * 2),
            r is Ok && old(self)@.proposals[(org_id, proposal_id)].votes + 1 <= old(
                self,
            )@.orgs[org_id].member_count / 3 * 2 ==> final(self)@.recipes == old(self)@.recipes
                && final(self)@.actions == old(self)@.actions,
            call_step(old(self)@, final(self)@),
    {
        let who = ensure_signed(origin)?;
        if !self.map_org.contains_key(&org_id) {
            return Err(DispatchError::Module(Error::OrgIdMustExist));
        }
        if !self.proposals.contains_key(&(org_id, proposal_id)) {
            return Err(DispatchError::Module(Error::ProposalIdMustExist));
        }
        if !self.members.contains_key(&(org_id, who)) {
            return Err(DispatchError::Module(Error::AccountMustInOrg));
        }
        let processing = match self.proposals.get(&(org_id, proposal_id)) {
            Some(p) => p.statue == ProposalStatue::Processing,
            None => false,
        };
        if !processing {
            return Err(DispatchError::Module(Error::ProposalMustInProcessing));
        }
        let member_count = match self.map_org.get(&org_id) {
            Some(org) => org.member_count,
            None => 0,
        };
        let proposal = self.proposals.remove(&(org_id, proposal_id)).unwrap();
        let threshold: u128 = (member_count / 3 * 2) as u128;
        let is_pass = proposal.votes + 1 > threshold;
        let approve_add: u128 = if vote_unit == 0 { 1 } else { 0 };
        let deny_add: u128 = if vote_unit == 1 { 1 } else { 0 };
        let proposer = proposal.proposer;
        let payment = proposal.payment_requested;
        let statue = if is_pass { ProposalStatue::Transfering } else { proposal.statue };
        let updated = Proposal {
            votes: proposal.votes + 1,
            approve_votes: proposal.approve_votes + approve_add,
            deny_votes: proposal.deny_votes + deny_add,
            statue,
            ..proposal
        };
        self.proposals.insert((org_id, proposal_id), updated);
        if is_pass {
            let frequency: u64 = 12;
            let triger_id = unwrap_or_zero(self.next_triger_id);
            self.map_triger.insert(triger_id, Triger::Timer(now, 60, frequency));
            self.triger_owner.insert((proposer, triger_id));
            self.next_triger_id = Some(next_after(triger_id));

            let action_id = unwrap_or_zero(self.next_action_id);
            self.map_action.insert(
                action_id,
                Action::TranferToken(org_id, proposal_id, proposer, payment),
            );
            self.action_owner.insert((proposer, action_id));
            self.next_action_id = Some(next_after(action_id));

            let recipe_id = unwrap_or_zero(self.next_recipe_id);
            let recipe = Recipe {
                triger_id,
                action_id,
                enable: true,
                times: 0,
                max_times: frequency,
                done: false,
                last_triger_timestamp: 0,
                force_stop: false,
            };
            self.map_recipe.insert(recipe_id, recipe);
            self.recipe_owner.insert((proposer, recipe_id));
            self.next_recipe_id = Some(next_after(recipe_id));

            self.events.push(Event::Transfering(org_id, proposal_id, payment));
        }
        self.events.push(Event::VoteSubmited(who, org_id, proposal_id));
        proof {
            assert(voted(old(self)@, self@, who, org_id, proposal_id, vote_unit, now));
            vote_passes_at_two_thirds(old(self)@, self@, who, org_id, proposal_id, vote_unit, now);
        }
        Ok(())
    }

    /// Accepts any signed origin and changes nothing.
    pub fn stop_proposal_transfer(&mut self, origin: Origin, _org_id: u64, _proposal_index: u64) -> (r:
        DispatchResult)
        ensures
            r is Ok <==> origin is Signed,
            r is Err ==> r == Err::<(), DispatchError>(DispatchError::BadOrigin),
            final(self)@ == old(self)@,
            call_step(old(self)@, final(self)@),
    {
        let _who = ensure_signed(origin)?;
        Ok(())
    }

    /// Marks a recipe done, from an unsigned transaction.
    pub fn set_recipe_done_unsigned(
        &mut self,
        origin: Origin,
        _block_number: BlockNumber,
        recipe_id: u64,
    ) -> (r: DispatchResult)
        ensures
            origin != Origin::Unsigned ==> r == Err::<(), DispatchError>(DispatchError::BadOrigin),
            origin == Origin::Unsigned && !old(self)@.recipes.contains_key(recipe_id) ==> r == Err::<
                (),
                DispatchError,
            >(DispatchError::Module(Error::RecipeIdNotExist)),
            r is Ok <==> origin == Origin::Unsigned && old(self)@.recipes.contains_key(recipe_id),
            r is Err ==> final(self)@ == old(self)@,
            r is Ok ==> final(self)@ == (PalletView {
                recipes: old(self)@.recipes.insert(
                    recipe_id,
                    Recipe { done: true, ..old(self)@.recipes[recipe_id] },
                ),
                events: old(self)@.events.push(Event::RecipeDone(recipe_id)),
                ..old(self)@
            }),
            call_step(old(self)@, final(self)@),
    {
        ensure_none(origin)?;
        if !self.map_recipe.contains_key(&recipe_id) {
            return Err(DispatchError::Module(Error::RecipeIdNotExist));
        }
        let recipe = *self.map_recipe.get(&recipe_id).unwrap();
        self.map_recipe.insert(recipe_id, Recipe { done: true, ..recipe });
        self.events.push(Event::RecipeDone(recipe_id));
        proof {
            assert(recipe_updated(old(self)@, self@, recipe_id, Recipe { done: true, ..recipe }));
        }
        Ok(())
    }

    /// Records how often a recipe fired and when it last did, from an
    /// unsigned transaction.
    pub fn update_recipe_triger_times_unsigned(
        &mut self,
        origin: Origin,
        _block_number: BlockNumber,
        recipe_id: u64,
        times: u64,
        timestamp: u64,
    ) -> (r: DispatchResult)
        ensures
            origin != Origin::Unsigned ==> r == Err::<(), DispatchError>(DispatchError::BadOrigin),
            origin == Origin::Unsigned && !old(self)@.recipes.contains_key(recipe_id) ==> r == Err::<
                (),
                DispatchError,
            >(DispatchError::Module(Error::RecipeIdNotExist)),
            r is Ok <==> origin == Origin::Unsigned && old(self)@.recipes.contains_key(recipe_id),
            r is Err ==> final(self)@ == old(self)@,
            r is Ok ==> final(self)@ == (PalletView {
                recipes: old(self)@.recipes.insert(
                    recipe_id,
                    Recipe {
                        times,
                        last_triger_timestamp: timestamp,
                        ..old(self)@.recipes[recipe_id]
                    },
                ),
                events: old(self)@.events.push(
                    Event::RecipeTrigerTimesUpdated(recipe_id, times, timestamp),
                ),
                ..old(self)@
            }),
            call_step(old(self)@, final(self)@),
    {
        ensure_none(origin)?;
        if !self.map_recipe.contains_key(&recipe_id) {
            return Err(DispatchError::Module(Error::RecipeIdNotExist));
        }
        let recipe = *self.map_recipe.get(&recipe_id).unwrap();
        self.map_recipe.insert(recipe_id, Recipe { times, last_triger_timestamp: timestamp, ..recipe });
        self.events.push(Event::RecipeTrigerTimesUpdated(recipe_id, times, timestamp));
        proof {
            assert(recipe_updated(
                old(self)@,
                self@,
                recipe_id,
                Recipe { times, last_triger_timestamp: timestamp, ..recipe },
            ));
        }
        Ok(())
    }

    /// Pays `amount` from an organisation's treasury to `reciver`, from an
    /// unsigned transaction, and emits `TransferFrequency`.
    pub fn tranfer_unsigned(
        &mut self,
        origin: Origin,
        org_id: u64,
        proposal_id: u64,
        times: u64,
        _block_number: BlockNumber,
        reciver: AccountId,
        amount: Balance,
    ) -> (r: Result<Transfer, DispatchError>)
        ensures
            origin != Origin::Unsigned ==> r == Err::<Transfer, DispatchError>(DispatchError::BadOrigin)
                && final(self)@ == old(self)@,
            origin == Origin::Unsigned ==> {
                let treasury = org_treasury(old(self)@.pallet_id, org_id);
                &&& r == Ok::<Transfer, DispatchError>(Transfer { from: treasury, to: reciver, amount })
                &&& final(self)@ == (PalletView {
                    events: old(self)@.events.push(
                        Event::TransferFrequency(org_id, proposal_id, times, treasury, reciver, amount),
                    ),
                    ..old(self)@
                })
            },
            call_step(old(self)@, final(self)@),
    {
        ensure_none(origin)?;
        let treasury = self.org_account(org_id);
        self.events.push(
            Event::TransferFrequency(org_id, proposal_id, times, treasury, reciver, amount),
        );
        Ok(Transfer { from: treasury, to: reciver, amount })
    }
}


impl Pallet {
    /// The stored value.
    pub fn something(&self) -> (r: Option<u32>)
        ensures
            r == self@.something,
    {
        self.something
    }

    /// The id that the next organisation gets, where one was handed out.
    pub fn next_org_id(&self) -> (r: Option<u64>)
        ensures
            r == self@.next_org_id,
    {
        self.next_org_id
    }

    /// An organisation.
    pub fn map_org(&self, org_id: u64) -> (r: Option<&Org>)
        ensures
            r is Some <==> self@.orgs.contains_key(org_id),
            r matches Some(o) ==> *o == self@.orgs[org_id],
    {
        self.map_org.get(&org_id)
    }

    /// A member's record in an organisation.
    pub fn members(&self, org_id: u64, who: AccountId) -> (r: Option<Member>)
        ensures
            r is Some <==> self@.members.contains_key((org_id, who)),
            r matches Some(m) ==> m == self@.members[(org_id, who)],
    {
        match self.members.get(&(org_id, who)) {
            Some(m) => Some(*m),
            None => None,
        }
    }

    /// Whether an account belongs to an organisation, as the index from
    /// accounts to their organisations records it.
    pub fn member_orgs(&self, who: AccountId, org_id: u64) -> (r: Option<()>)
        ensures
            r is Some <==> self@.member_orgs.contains((who, org_id)),
    {
        if self.member_orgs.contains(&(who, org_id)) {
            Some(())
        } else {
            None
        }
    }

    /// The id that an organisation's next proposal gets, where one was
    /// handed out.
    pub fn next_proposal_id(&self, org_id: u64) -> (r: Option<u64>)
        ensures
            r is Some <==> self@.next_proposal_id.contains_key(org_id),
            r matches Some(v) ==> v == self@.next_proposal_id[org_id],
    {
        match self.next_proposal_id.get(&org_id) {
            Some(v) => Some(*v),
            None => None,
        }
    }

    /// A proposal.
    pub fn proposals(&self, org_id: u64, proposal_id: u64) -> (r: Option<&Proposal>)
        ensures
            r is Some <==> self@.proposals.contains_key((org_id, proposal_id)),
            r matches Some(p) ==> *p == self@.proposals[(org_id, proposal_id)],
    {
        self.proposals.get(&(org_id, proposal_id))
    }

    /// Whether an account owns a trigger.
    pub fn triger_owner(&self, who: AccountId, triger_id: u64) -> (r: Option<()>)
        ensures
            r is Some <==> self@.triger_owner.contains((who, triger_id)),
    {
        if self.triger_owner.contains(&(who, triger_id)) {
            Some(())
        } else {
            None
        }
    }

    /// Whether an account owns an action.
    pub fn action_owner(&self, who: AccountId, action_id: u64) -> (r: Option<()>)
        ensures
            r is Some <==> self@.action_owner.contains((who, action_id)),
    {
        if self.action_owner.contains(&(who, action_id)) {
            Some(())
        } else {
            None
        }
    }

    /// Whether an account owns a recipe.
    pub fn recipe_owner(&self, who: AccountId, recipe_id: u64) -> (r: Option<()>)
        ensures
            r is Some <==> self@.recipe_owner.contains((who, recipe_id)),
    {
        if self.recipe_owner.contains(&(who, recipe_id)) {
            Some(())
        } else {
            None
        }
    }

    /// A trigger.
    pub fn map_triger(&self, triger_id: u64) -> (r: Option<Triger>)
        ensures
            r is Some <==> self@.trigers.contains_key(triger_id),
            r matches Some(t) ==> t == self@.trigers[triger_id],
    {
        match self.map_triger.get(&triger_id) {
            Some(t) => Some(*t),
            None => None,
        }
    }

    /// An action.
    pub fn map_action(&self, action_id: u64) -> (r: Option<Action>)
        ensures
            r is Some <==> self@.actions.contains_key(action_id),
            r matches Some(a) ==> a == self@.actions[action_id],
    {
        match self.map_action.get(&action_id) {
            Some(a) => Some(*a),
            None => None,
        }
    }

    /// A recipe.
    pub fn map_recipe(&self, recipe_id: u64) -> (r: Option<Recipe>)
        ensures
            r is Some <==> self@.recipes.contains_key(recipe_id),
            r matches Some(x) ==> x == self@.recipes[recipe_id],
    {
        match self.map_recipe.get(&recipe_id) {
            Some(x) => Some(*x),
            None => None,
        }
    }

    /// The id that the next trigger gets, where one was handed out.
    pub fn next_triger_id(&self) -> (r: Option<u64>)
        ensures
            r == self@.next_triger_id,
    {
        self.next_triger_id
    }

    /// The id that the next action gets, where one was handed out.
    pub fn next_action_id(&self) -> (r: Option<u64>)
        ensures
            r == self@.next_action_id,
    {
        self.next_action_id
    }

    /// The id that the next recipe gets, where one was handed out.
    pub fn next_recipe_id(&self) -> (r: Option<u64>)
        ensures
            r == self@.next_recipe_id,
    {
        self.next_recipe_id
    }

    /// The events emitted so far, oldest first.
    pub fn events(&self) -> (r: &Vec<Event>)
        ensures
            r@ == self@.events,
    {
        &self.events
    }

    /// The priority given to the pallet's unsigned transactions.
    pub fn unsigned_priority(&self) -> (r: u64)
        ensures
            r == self@.unsigned_priority,
    {
        self.unsigned_priority
    }

    /// All recipes, by id.
    pub(crate) fn recipe_map(&self) -> (r: &BTreeMap<u64, Recipe>)
        ensures
            r@ == self@.recipes,
    {
        &self.map_recipe
    }

    /// All triggers, by id.
    pub(crate) fn triger_map(&self) -> (r: &BTreeMap<u64, Triger>)
        ensures
            r@ == self@.trigers,
    {
        &self.map_triger
    }

    /// All actions, by id.
    pub(crate) fn action_map(&self) -> (r: &BTreeMap<u64, Action>)
        ensures
            r@ == self@.actions,
    {
        &self.map_action
    }
}

/// What `summon` leaves when signed by `who`.
pub open spec fn summoned(
    pre: PalletView,
    post: PalletView,
    who: AccountId,
    name: Seq<u8>,
    amount: Balance,
    r: Result<Transfer, DispatchError>,
) -> bool {
    let id = or_zero(pre.next_org_id);
    let treasury = org_treasury(pre.pallet_id, id);
    let org = post.orgs[id];
    &&& r == Ok::<Transfer, DispatchError>(Transfer { from: who, to: treasury, amount })
    &&& post.orgs =~= pre.orgs.insert(id, org)
    &&& name_bytes(org.name) == name
    &&& org.member_count == 1
    &&& org.total_shares == amount
    &&& org.treasury_id == treasury
    &&& post.events.len() == pre.events.len() + 1
    &&& post.events.drop_last() =~= pre.events
    &&& post.events.last() matches Event::Summoned(w, n, a) && w == who && n@ == name && a == amount
    &&& post =~= (PalletView {
        orgs: post.orgs,
        members: pre.members.insert((id, who), Member { shares: amount }),
        member_orgs: pre.member_orgs.insert((who, id)),
        next_org_id: Some(saturating_next(id)),
        events: post.events,
        ..pre
    })
}

/// The arithmetic of a donation stays in range: `donate` would overflow
/// otherwise.
pub open spec fn donation_fits(pre: PalletView, who: AccountId, org_id: u64, amount: Balance) -> bool {
    let org = pre.orgs[org_id];
    &&& org.total_shares + amount <= u128::MAX
    &&& pre.members.contains_key((org_id, who)) ==> pre.members[(org_id, who)].shares + amount
        <= u128::MAX
    &&& !pre.members.contains_key((org_id, who)) ==> org.member_count < u64::MAX
}

/// What `donate` leaves when signed by `who` for an existing organisation.
pub open spec fn donated(
    pre: PalletView,
    post: PalletView,
    who: AccountId,
    org_id: u64,
    amount: Balance,
    r: Result<Transfer, DispatchError>,
) -> bool {
    let old_org = pre.orgs[org_id];
    let org = post.orgs[org_id];
    let key = (org_id, who);
    let is_new = !pre.members.contains_key(key);
    let old_shares: Balance = if is_new { 0 } else { pre.members[key].shares };
    &&& r == Ok::<Transfer, DispatchError>(
        Transfer { from: who, to: org_treasury(pre.pallet_id, org_id), amount },
    )
    &&& post.orgs =~= pre.orgs.insert(org_id, org)
    &&& org.name == old_org.name
    &&& org.treasury_id == old_org.treasury_id
    &&& org.member_count == old_org.member_count + if is_new { 1int } else { 0int }
    &&& org.total_shares == old_org.total_shares + amount
    &&& post =~= (PalletView {
        orgs: post.orgs,
        members: pre.members.insert(key, Member { shares: (old_shares + amount) as u128 }),
        member_orgs: pre.member_orgs.insert((who, org_id)),
        events: pre.events.push(Event::Donated(who, org_id, amount)),
        ..pre
    })
}

/// Whether a vote gets past every check: signed by a member of an existing
/// organisation, on an existing proposal that is still open.
pub open spec fn vote_accepted(pre: PalletView, who: Option<AccountId>, org_id: u64, proposal_id: u64) -> bool {
    vote_outcome(pre, who, org_id, proposal_id) is Ok
}

/// What `submit_vote` answers, by the first check that fails.
pub open spec fn vote_outcome(pre: PalletView, who: Option<AccountId>, org_id: u64, proposal_id: u64) -> DispatchResult {
    match who {
        None => Err(DispatchError::BadOrigin),
        Some(w) => if !pre.orgs.contains_key(org_id) {
            Err(DispatchError::Module(Error::OrgIdMustExist))
        } else if !pre.proposals.contains_key((org_id, proposal_id)) {
            Err(DispatchError::Module(Error::ProposalIdMustExist))
        } else if !pre.members.contains_key((org_id, w)) {
            Err(DispatchError::Module(Error::AccountMustInOrg))
        } else if pre.proposals[(org_id, proposal_id)].statue != ProposalStatue::Processing {
            Err(DispatchError::Module(Error::ProposalMustInProcessing))
        } else {
            Ok(())
        },
    }
}

/// The tallies of a vote stay in range: `submit_vote` would overflow
/// otherwise.
pub open spec fn vote_fits(p: Proposal, vote_unit: u8) -> bool {
    &&& p.votes < u128::MAX
    &&& vote_unit == 0 ==> p.approve_votes < u128::MAX
    &&& vote_unit == 1 ==> p.deny_votes < u128::MAX
}

/// Whether a vote passes its proposal: the count with it exceeds two thirds of
/// the member count, rounded down to a multiple of two.
pub open spec fn vote_passes(votes_before: u128, member_count: u64) -> bool {
    votes_before + 1 > member_count / 3 * 2
}

/// A proposal with one more vote counted.
pub open spec fn with_vote(p: Proposal, vote_unit: u8, passes: bool) -> Proposal {
    Proposal {
        votes: (p.votes + 1) as u128,
        approve_votes: (p.approve_votes + if vote_unit == 0 { 1int } else { 0int }) as u128,
        deny_votes: (p.deny_votes + if vote_unit == 1 { 1int } else { 0int }) as u128,
        statue: if passes { ProposalStatue::Transfering } else { p.statue },
        ..p
    }
}

/// The recipe that pays out a passed proposal.
pub open spec fn payout_recipe(triger_id: u64, action_id: u64) -> Recipe {
    Recipe {
        triger_id,
        action_id,
        enable: true,
        times: 0,
        max_times: 12,
        done: false,
        last_triger_timestamp: 0,
        force_stop: false,
    }
}

/// What an accepted vote leaves.
pub open spec fn voted(
    pre: PalletView,
    post: PalletView,
    who: AccountId,
    org_id: u64,
    proposal_id: u64,
    vote_unit: u8,
    now: u64,
) -> bool {
    let key = (org_id, proposal_id);
    let p = pre.proposals[key];
    let passes = vote_passes(p.votes, pre.orgs[org_id].member_count);
    let proposals = pre.proposals.insert(key, with_vote(p, vote_unit, passes));
    let voted_event = Event::VoteSubmited(who, org_id, proposal_id);
    if passes {
        let tid = or_zero(pre.next_triger_id);
        let aid = or_zero(pre.next_action_id);
        let rid = or_zero(pre.next_recipe_id);
        post =~= (PalletView {
            proposals,
            trigers: pre.trigers.insert(tid, Triger::Timer(now, 60, 12)),
            triger_owner: pre.triger_owner.insert((p.proposer, tid)),
            next_triger_id: Some(saturating_next(tid)),
            actions: pre.actions.insert(
                aid,
                Action::TranferToken(org_id, proposal_id, p.proposer, p.payment_requested),
            ),
            action_owner: pre.action_owner.insert((p.proposer, aid)),
            next_action_id: Some(saturating_next(aid)),
            recipes: pre.recipes.insert(rid, payout_recipe(tid, aid)),
            recipe_owner: pre.recipe_owner.insert((p.proposer, rid)),
            next_recipe_id: Some(saturating_next(rid)),
            events: pre.events.push(Event::Transfering(org_id, proposal_id, p.payment_requested)).push(
                voted_event,
            ),
            ..pre
        })
    } else {
        post =~= (PalletView { proposals, events: pre.events.push(voted_event), ..pre })
    }
}

/// What a submitted proposal leaves.
pub open spec fn proposal_submitted(
    pre: PalletView,
    post: PalletView,
    who: AccountId,
    org_id: u64,
    payment_requested: Balance,
    detail: Seq<u8>,
) -> bool {
    let id = counter_at(pre.next_proposal_id, org_id);
    let p = post.proposals[(org_id, id)];
    &&& post.proposals =~= pre.proposals.insert((org_id, id), p)
    &&& p.proposer == who
    &&& p.votes == 0
    &&& p.approve_votes == 0
    &&& p.deny_votes == 0
    &&& detail_bytes(p.details) == detail
    &&& p.org_id == org_id
    &&& p.recipe_id == 0
    &&& p.statue == ProposalStatue::Processing
    &&& p.payment_requested == payment_requested
    &&& p.payment_frequency == 12
    &&& post.events.len() == pre.events.len() + 1
    &&& post.events.drop_last() =~= pre.events
    &&& post.events.last() matches Event::ProposalSubmited(w, o, a, d) && w == who && o == org_id
        && a == payment_requested && d@ == detail
    &&& post =~= (PalletView {
        proposals: post.proposals,
        next_proposal_id: pre.next_proposal_id.insert(org_id, saturating_next(id)),
        events: post.events,
        ..pre
    })
}

} // verus!
