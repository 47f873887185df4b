//! What every call keeps true of the pallet's storage, and what holds over
//! runs of calls.
//!
//! A consistent storage has every member and every proposal in an existing
//! organisation, the index from accounts to their organisations matching the
//! members, each organisation's member count equal to the number of its
//! members and its total shares equal to the sum of its members' shares,
//! every proposal's approvals and denials within its vote count, organisation
//! and proposal ids below the next ones to hand out, and every recipe tied to
//! an existing trigger and action. An empty pallet is consistent, and each
//! call leaves a consistent storage consistent; founding an organisation does
//! so unless the organisation ids have run out and the last one is taken.
//!
//! `call_step` is what any one call leaves, by the calls' contracts. Over any
//! run of calls in which no id counter runs out, a proposal's status only
//! moves from being voted on to paying out, and each passed proposal has at
//! most one trigger, action and recipe.

use vstd::prelude::*;
use crate::offchain::{
    fired_tasks, ids_increase, is_live, planned_transfers, synced_tasks, transfer_call, PlannedTransfer,
};
use crate::pallet::{
    counter_at, donated, donation_fits, or_zero, proposal_submitted, summoned, vote_accepted, vote_fits,
    vote_outcome, vote_passes, voted, payout_recipe, PalletView,
};
use crate::types::{
    AccountId, Action, Balance, BlockNumber, Call, DispatchError, Error, Member, ProposalStatue,
    Recipe, Transfer, Triger,
};

verus! {

/// The members' keys of one organisation.
pub open spec fn members_of(members: Map<(u64, AccountId), Member>, org_id: u64) -> Set<(u64, AccountId)> {
    members.dom().filter(|k: (u64, AccountId)| k.0 == org_id)
}

/// The sum of the shares held under a finite set of member keys.
pub open spec fn share_sum(members: Map<(u64, AccountId), Member>, keys: Set<(u64, AccountId)>) -> int
    decreases keys.len(),
    when keys.finite()
{
    if keys.len() == 0 {
        0
    } else {
        let k = keys.choose();
        members[k].shares + share_sum(members, keys.remove(k))
    }
}

/// Whether an id lies below the next id that a counter hands out, or the
/// counter ran out.
pub open spec fn handed_out(next: Option<u64>, id: u64) -> bool {
    id < or_zero(next) || or_zero(next) == u64::MAX
}

/// The consistency of the pallet's storage.
pub open spec fn consistent(v: PalletView) -> bool {
    &&& v.members.dom().finite()
    &&& forall|k: (u64, AccountId)| #[trigger] v.members.contains_key(k) ==> v.orgs.contains_key(k.0)
    &&& forall|who: AccountId, org_id: u64|
        #[trigger] v.member_orgs.contains((who, org_id)) <==> v.members.contains_key((org_id, who))
    &&& forall|id: u64| #[trigger] v.orgs.contains_key(id) ==> handed_out(v.next_org_id, id)
    &&& forall|id: u64|
        #[trigger] v.orgs.contains_key(id) ==> v.orgs[id].member_count == members_of(v.members, id).len()
    &&& forall|id: u64|
        #[trigger] v.orgs.contains_key(id) ==> v.orgs[id].total_shares == share_sum(
            v.members,
            members_of(v.members, id),
        )
    &&& forall|k: (u64, u64)| #[trigger]
        v.proposals.contains_key(k) ==> v.orgs.contains_key(k.0) && v.proposals[k].org_id == k.0
            && v.proposals[k].approve_votes + v.proposals[k].deny_votes <= v.proposals[k].votes
            && (k.1 < counter_at(v.next_proposal_id, k.0) || counter_at(v.next_proposal_id, k.0)
            == u64::MAX)
    &&& forall|id: u64| #[trigger]
        v.recipes.contains_key(id) ==> v.trigers.contains_key(v.recipes[id].triger_id)
            && v.actions.contains_key(v.recipes[id].action_id)
}

/// Adding a key to a finite set adds its shares to the sum.
proof fn lemma_share_sum_insert(members: Map<(u64, AccountId), Member>, keys: Set<(u64, AccountId)>, x: (u64, AccountId))
    requires
        keys.finite(),
        !keys.contains(x),
    ensures
        share_sum(members, keys.insert(x)) == share_sum(members, keys) + members[x].shares,
    decreases keys.len(),
{
    let s = keys.insert(x);
    assert(s.len() == keys.len() + 1);
    let k = s.choose();
    assert(s.contains(k));
    if k == x {
        assert(s.remove(x) =~= keys);
    } else {
        let rest = keys.remove(k);
        assert(s.remove(k) =~= rest.insert(x));
        lemma_share_sum_insert(members, rest, x);
        assert(rest.insert(k) =~= keys);
        lemma_share_sum_insert(members, rest, k);
    }
}

/// Removing a key from a finite set takes its shares off the sum.
proof fn lemma_share_sum_remove(members: Map<(u64, AccountId), Member>, keys: Set<(u64, AccountId)>, x: (u64, AccountId))
    requires
        keys.finite(),
        keys.contains(x),
    ensures
        share_sum(members, keys) == share_sum(members, keys.remove(x)) + members[x].shares,
    decreases keys.len(),
{
    let rest = keys.remove(x);
    assert(rest.insert(x) =~= keys);
    lemma_share_sum_insert(members, rest, x);
}

/// The sum depends only on the shares held under the keys it sums.
proof fn lemma_share_sum_agree(
    a: Map<(u64, AccountId), Member>,
    b: Map<(u64, AccountId), Member>,
    keys: Set<(u64, AccountId)>,
)
    requires
        keys.finite(),
        forall|k: (u64, AccountId)| keys.contains(k) ==> a[k] == b[k],
    ensures
        share_sum(a, keys) == share_sum(b, keys),
    decreases keys.len(),
{
    if keys.len() > 0 {
        let k = keys.choose();
        lemma_share_sum_agree(a, b, keys.remove(k));
    }
}

/// Founding an organisation keeps the storage consistent, unless the
/// organisation ids ran out and the last one is taken.
pub proof fn summon_keeps_consistency(
    pre: PalletView,
    post: PalletView,
    who: AccountId,
    name: Seq<u8>,
    amount: Balance,
    r: Result<Transfer, DispatchError>,
)
    requires
        consistent(pre),
        summoned(pre, post, who, name, amount, r),
        !(pre.next_org_id == Some(u64::MAX) && pre.orgs.contains_key(u64::MAX)),
    ensures
        consistent(post),
{
    let id = or_zero(pre.next_org_id);
    let key = (id, who);
    assert(!pre.orgs.contains_key(id));
    assert(!pre.members.contains_key(key));
    assert(post.members == pre.members.insert(key, Member { shares: amount }));
    assert(members_of(pre.members, id) =~= Set::empty()) by {
        assert forall|k: (u64, AccountId)| !members_of(pre.members, id).contains(k) by {
            if pre.members.contains_key(k) && k.0 == id {
                assert(pre.orgs.contains_key(k.0));
            }
        }
    }
    assert(members_of(post.members, id) =~= Set::empty().insert(key));
    assert(share_sum(post.members, Set::empty().insert(key)) == amount) by {
        lemma_share_sum_insert(post.members, Set::empty(), key);
    }
    assert forall|o: u64| #[trigger] post.orgs.contains_key(o) && o != id implies members_of(
        post.members,
        o,
    ) == members_of(pre.members, o) && share_sum(post.members, members_of(post.members, o))
        == share_sum(pre.members, members_of(pre.members, o)) by {
        assert(members_of(post.members, o) =~= members_of(pre.members, o));
        lemma_share_sum_agree(post.members, pre.members, members_of(pre.members, o));
    }
    assert forall|o: u64| #[trigger] post.orgs.contains_key(o) implies handed_out(post.next_org_id, o) by {
        if o != id {
            assert(pre.orgs.contains_key(o));
        }
    }
}

/// A donation keeps the storage consistent.
pub proof fn donate_keeps_consistency(
    pre: PalletView,
    post: PalletView,
    who: AccountId,
    org_id: u64,
    amount: Balance,
    r: Result<Transfer, DispatchError>,
)
    requires
        consistent(pre),
        pre.orgs.contains_key(org_id),
        donation_fits(pre, who, org_id, amount),
        donated(pre, post, who, org_id, amount, r),
    ensures
        consistent(post),
{
    let key = (org_id, who);
    let is_new = !pre.members.contains_key(key);
    let old_shares: Balance = if is_new { 0 } else { pre.members[key].shares };
    let m = Member { shares: (old_shares + amount) as u128 };
    assert(post.members == pre.members.insert(key, m));
    let before = members_of(pre.members, org_id);
    let after = members_of(post.members, org_id);
    assert(before.finite());
    if is_new {
        assert(after =~= before.insert(key));
        lemma_share_sum_insert(post.members, before, key);
        lemma_share_sum_agree(post.members, pre.members, before);
    } else {
        assert(after =~= before);
        let rest = before.remove(key);
        lemma_share_sum_remove(post.members, before, key);
        lemma_share_sum_remove(pre.members, before, key);
        lemma_share_sum_agree(post.members, pre.members, rest);
    }
    assert forall|o: u64| #[trigger] post.orgs.contains_key(o) && o != org_id implies members_of(
        post.members,
        o,
    ) == members_of(pre.members, o) && share_sum(post.members, members_of(post.members, o))
        == share_sum(pre.members, members_of(pre.members, o)) by {
        assert(members_of(post.members, o) =~= members_of(pre.members, o));
        lemma_share_sum_agree(post.members, pre.members, members_of(pre.members, o));
    }
}

/// A call that changes nothing but the stored value and the events
/// (`do_something`, `cause_error`, `stop_proposal_transfer`,
/// `tranfer_unsigned`, and any refused call) keeps the storage consistent.
pub proof fn bookkeeping_keeps_consistency(pre: PalletView, post: PalletView)
    requires
        consistent(pre),
        bookkeeping_step(pre, post),
    ensures
        consistent(post),
{
}

/// Updating a recipe's counts or marking it done, which keeps its trigger
/// and action, keeps the storage consistent.
pub proof fn recipe_update_keeps_consistency(pre: PalletView, post: PalletView, recipe_id: u64, recipe: Recipe)
    requires
        consistent(pre),
        recipe_updated(pre, post, recipe_id, recipe),
    ensures
        consistent(post),
{
}

/// Submitting a proposal keeps the storage consistent.
pub proof fn submit_proposal_keeps_consistency(
    pre: PalletView,
    post: PalletView,
    who: AccountId,
    org_id: u64,
    payment_requested: Balance,
    detail: Seq<u8>,
)
    requires
        consistent(pre),
        pre.orgs.contains_key(org_id),
        proposal_submitted(pre, post, who, org_id, payment_requested, detail),
    ensures
        consistent(post),
{
}

/// An accepted vote keeps the storage consistent.
pub proof fn submit_vote_keeps_consistency(
    pre: PalletView,
    post: PalletView,
    who: AccountId,
    org_id: u64,
    proposal_id: u64,
    vote_unit: u8,
    now: u64,
)
    requires
        consistent(pre),
        vote_accepted(pre, Some(who), org_id, proposal_id),
        vote_fits(pre.proposals[(org_id, proposal_id)], vote_unit),
        voted(pre, post, who, org_id, proposal_id, vote_unit, now),
    ensures
        consistent(post),
{
    let key = (org_id, proposal_id);
    let p = pre.proposals[key];
    assert(post.proposals.contains_key(key));
}

/// Once a vote passes a proposal, no further vote on it is accepted: a
/// member's vote is refused as the proposal is no longer being voted on, and
/// anyone else's as not being a member.
pub proof fn passing_vote_closes_voting(
    pre: PalletView,
    post: PalletView,
    who: AccountId,
    org_id: u64,
    proposal_id: u64,
    vote_unit: u8,
    now: u64,
    voter: AccountId,
)
    requires
        vote_accepted(pre, Some(who), org_id, proposal_id),
        vote_fits(pre.proposals[(org_id, proposal_id)], vote_unit),
        voted(pre, post, who, org_id, proposal_id, vote_unit, now),
        vote_passes(pre.proposals[(org_id, proposal_id)].votes, pre.orgs[org_id].member_count),
    ensures
        vote_outcome(post, Some(voter), org_id, proposal_id) == if post.members.contains_key(
            (org_id, voter),
        ) {
            Err::<(), DispatchError>(DispatchError::Module(Error::ProposalMustInProcessing))
        } else {
            Err::<(), DispatchError>(DispatchError::Module(Error::AccountMustInOrg))
        },
{
    assert(post.proposals[(org_id, proposal_id)].statue == ProposalStatue::Transfering);
}

/// Two donations by one account to one organisation add up: its shares and
/// the organisation's total grow by both amounts, and the member count by
/// one at most, where the account was not yet a member.
pub proof fn donations_accumulate(
    s0: PalletView,
    s1: PalletView,
    s2: PalletView,
    who: AccountId,
    org_id: u64,
    a1: Balance,
    a2: Balance,
    r1: Result<Transfer, DispatchError>,
    r2: Result<Transfer, DispatchError>,
)
    requires
        s0.orgs.contains_key(org_id),
        donation_fits(s0, who, org_id, a1),
        donated(s0, s1, who, org_id, a1, r1),
        donation_fits(s1, who, org_id, a2),
        donated(s1, s2, who, org_id, a2, r2),
    ensures
        s2.members[(org_id, who)].shares == (if s0.members.contains_key((org_id, who)) {
            s0.members[(org_id, who)].shares as int
        } else {
            0
        }) + a1 + a2,
        s2.orgs[org_id].total_shares == s0.orgs[org_id].total_shares + a1 + a2,
        s2.orgs[org_id].member_count == s0.orgs[org_id].member_count + if s0.members.contains_key(
            (org_id, who),
        ) {
            0int
        } else {
            1int
        },
{
}

/// Bringing the tracked recipes in line with the recipes on chain a second
/// time changes nothing.
pub proof fn sync_is_idempotent(tasks: Map<u64, Recipe>, recipes: Map<u64, Recipe>)
    ensures
        synced_tasks(synced_tasks(tasks, recipes), recipes) == synced_tasks(tasks, recipes),
{
    assert(synced_tasks(synced_tasks(tasks, recipes), recipes) =~= synced_tasks(tasks, recipes));
}

/// After bringing the tracked recipes in line, exactly the live recipes on
/// chain are tracked, besides those that are not on chain at all.
pub proof fn sync_tracks_live_recipes(tasks: Map<u64, Recipe>, recipes: Map<u64, Recipe>, id: u64)
    requires
        recipes.contains_key(id),
    ensures
        synced_tasks(tasks, recipes).contains_key(id) <==> is_live(recipes[id]),
        synced_tasks(tasks, recipes).contains_key(id) <==> recipes[id].enable && !recipes[id].done,
{
}

/// Bringing the tracked recipes in line with the recipes on chain: a recipe
/// on chain is tracked exactly when it is enabled and not done; a recipe not
/// on chain stays tracked as it was, or untracked; a recipe tracked before
/// keeps its counts; and one tracked anew starts with the recipe's trigger
/// and action, enabled, with every count at zero.
pub proof fn sync_law(tasks: Map<u64, Recipe>, recipes: Map<u64, Recipe>)
    ensures
        forall|id: u64|
            #![trigger synced_tasks(tasks, recipes).contains_key(id)]
            recipes.contains_key(id) ==> (synced_tasks(tasks, recipes).contains_key(id) <==> (
            recipes[id].enable && !recipes[id].done)),
        forall|id: u64|
            #![trigger synced_tasks(tasks, recipes).contains_key(id)]
            !recipes.contains_key(id) ==> (synced_tasks(tasks, recipes).contains_key(id)
                <==> tasks.contains_key(id)),
        forall|id: u64|
            #![trigger synced_tasks(tasks, recipes)[id]]
            synced_tasks(tasks, recipes).contains_key(id) && tasks.contains_key(id)
                ==> synced_tasks(tasks, recipes)[id] == tasks[id],
        forall|id: u64|
            #![trigger synced_tasks(tasks, recipes)[id]]
            synced_tasks(tasks, recipes).contains_key(id) && !tasks.contains_key(id)
                ==> synced_tasks(tasks, recipes)[id] == (Recipe {
                triger_id: recipes[id].triger_id,
                action_id: recipes[id].action_id,
                enable: true,
                times: 0,
                max_times: 0,
                done: false,
                last_triger_timestamp: 0,
                force_stop: false,
            }),
{
}

/// Firing the tracked recipes at `now`: the same recipes stay tracked; one
/// whose trigger is a timer `Timer(insert_time, timer_seconds, _)` fires,
/// counting one more time and otherwise unchanged, exactly when
/// `insert_time + times * timer_seconds < now`; any other stays as it was.
pub proof fn fire_law(tasks: Map<u64, Recipe>, trigers: Map<u64, Triger>, now: u64)
    ensures
        fired_tasks(tasks, trigers, now).dom() == tasks.dom(),
        forall|id: u64|
            #![trigger fired_tasks(tasks, trigers, now)[id]]
            tasks.contains_key(id) ==> fired_tasks(tasks, trigers, now)[id] == if trigers.contains_key(
                tasks[id].triger_id,
            ) {
                match trigers[tasks[id].triger_id] {
                    Triger::Timer(insert_time, timer_seconds, _) => if insert_time + tasks[id].times
                        * timer_seconds < now {
                        Recipe { times: (tasks[id].times + 1) as u64, ..tasks[id] }
                    } else {
                        tasks[id]
                    },
                }
            } else {
                tasks[id]
            },
{
    assert(fired_tasks(tasks, trigers, now).dom() =~= tasks.dom());
}

/// In a consistent storage, founding an organisation never replaces one,
/// unless the organisation ids ran out.
pub proof fn summon_takes_a_fresh_id(pre: PalletView)
    requires
        consistent(pre),
        or_zero(pre.next_org_id) < u64::MAX,
    ensures
        !pre.orgs.contains_key(or_zero(pre.next_org_id)),
{
}

/// In a consistent storage, submitting a proposal never replaces one of the
/// same organisation, unless its proposal ids ran out.
pub proof fn proposal_takes_a_fresh_id(pre: PalletView, org_id: u64)
    requires
        consistent(pre),
        counter_at(pre.next_proposal_id, org_id) < u64::MAX,
    ensures
        !pre.proposals.contains_key((org_id, counter_at(pre.next_proposal_id, org_id))),
{
}

/// A call that changes nothing but the stored value and the events.
pub open spec fn bookkeeping_step(pre: PalletView, post: PalletView) -> bool {
    post =~= (PalletView { something: post.something, events: post.events, ..pre })
}

/// A call that replaces a recipe by one with the same trigger and action.
pub open spec fn recipe_updated(pre: PalletView, post: PalletView, recipe_id: u64, recipe: Recipe) -> bool {
    &&& pre.recipes.contains_key(recipe_id)
    &&& recipe.triger_id == pre.recipes[recipe_id].triger_id
    &&& recipe.action_id == pre.recipes[recipe_id].action_id
    &&& post =~= (PalletView {
        recipes: pre.recipes.insert(recipe_id, recipe),
        events: post.events,
        ..pre
    })
}

/// One call of the pallet, accepted or refused, as its contract describes
/// it: `post` is what a call leaves of `pre`.
pub open spec fn call_step(pre: PalletView, post: PalletView) -> bool {
    ||| bookkeeping_step(pre, post)
    ||| exists|who: AccountId, name: Seq<u8>, amount: Balance, r: Result<Transfer, DispatchError>|
        #[trigger] summoned(pre, post, who, name, amount, r)
    ||| exists|who: AccountId, org_id: u64, amount: Balance, r: Result<Transfer, DispatchError>|
        #[trigger] donated(pre, post, who, org_id, amount, r) && pre.orgs.contains_key(org_id)
            && donation_fits(pre, who, org_id, amount)
    ||| exists|who: AccountId, org_id: u64, payment: Balance, detail: Seq<u8>|
        #[trigger] proposal_submitted(pre, post, who, org_id, payment, detail)
            && pre.orgs.contains_key(org_id)
    ||| exists|who: AccountId, org_id: u64, proposal_id: u64, vote_unit: u8, now: u64|
        #[trigger] voted(pre, post, who, org_id, proposal_id, vote_unit, now) && vote_accepted(
            pre,
            Some(who),
            org_id,
            proposal_id,
        ) && vote_fits(pre.proposals[(org_id, proposal_id)], vote_unit)
    ||| exists|recipe_id: u64, recipe: Recipe| #[trigger] recipe_updated(pre, post, recipe_id, recipe)
}

/// Every id counter has ids left to hand out.
pub open spec fn ids_left(v: PalletView) -> bool {
    &&& or_zero(v.next_org_id) < u64::MAX
    &&& forall|o: u64| #[trigger] counter_at(v.next_proposal_id, o) < u64::MAX
    &&& or_zero(v.next_triger_id) < u64::MAX
    &&& or_zero(v.next_action_id) < u64::MAX
    &&& or_zero(v.next_recipe_id) < u64::MAX
}

/// The proposal that an action pays out.
pub open spec fn paid_proposal(a: Action) -> (u64, u64) {
    match a {
        Action::TranferToken(org_id, proposal_id, _, _) => (org_id, proposal_id),
    }
}

/// Each passed proposal has at most one payout: every action pays a
/// proposal that is no longer being voted on, no two actions pay the same
/// proposal, and no two recipes share an action or a trigger; trigger,
/// action and recipe ids lie below the next ones to hand out.
pub open spec fn payouts_unique(v: PalletView) -> bool {
    &&& forall|t: u64| #[trigger] v.trigers.contains_key(t) ==> handed_out(v.next_triger_id, t)
    &&& forall|a: u64| #[trigger] v.actions.contains_key(a) ==> handed_out(v.next_action_id, a)
    &&& forall|r: u64| #[trigger] v.recipes.contains_key(r) ==> handed_out(v.next_recipe_id, r)
    &&& forall|a: u64| #[trigger]
        v.actions.contains_key(a) ==> v.proposals.contains_key(paid_proposal(v.actions[a]))
            && v.proposals[paid_proposal(v.actions[a])].statue != ProposalStatue::Processing
    &&& forall|a1: u64, a2: u64|
        #![trigger v.actions[a1], v.actions[a2]]
        v.actions.contains_key(a1) && v.actions.contains_key(a2) && a1 != a2 ==> paid_proposal(
            v.actions[a1],
        ) != paid_proposal(v.actions[a2])
    &&& forall|r1: u64, r2: u64|
        #![trigger v.recipes[r1], v.recipes[r2]]
        v.recipes.contains_key(r1) && v.recipes.contains_key(r2) && r1 != r2 ==> v.recipes[r1].action_id
            != v.recipes[r2].action_id && v.recipes[r1].triger_id != v.recipes[r2].triger_id
}

/// A proposal's status stays, or moves from being voted on to paying out.
pub open spec fn status_advances(a: ProposalStatue, b: ProposalStatue) -> bool {
    a == b || (a == ProposalStatue::Processing && b == ProposalStatue::Transfering)
}

/// Every proposal of `pre` is still there in `post`, its status advanced.
pub open spec fn proposals_advance(pre: PalletView, post: PalletView) -> bool {
    forall|k: (u64, u64)| #[trigger]
        pre.proposals.contains_key(k) ==> post.proposals.contains_key(k) && status_advances(
            pre.proposals[k].statue,
            post.proposals[k].statue,
        )
}

/// One call, on a consistent storage with ids left, keeps it consistent,
/// keeps each passed proposal to one payout, and only advances proposals.
pub proof fn call_step_laws(pre: PalletView, post: PalletView)
    requires
        consistent(pre),
        payouts_unique(pre),
        ids_left(pre),
        call_step(pre, post),
    ensures
        consistent(post),
        payouts_unique(post),
        proposals_advance(pre, post),
{
    if bookkeeping_step(pre, post) {
        bookkeeping_keeps_consistency(pre, post);
    } else if exists|who: AccountId, name: Seq<u8>, amount: Balance, r: Result<Transfer, DispatchError>|
        #[trigger] summoned(pre, post, who, name, amount, r) {
        let (who, name, amount, r) = choose|
            who: AccountId,
            name: Seq<u8>,
            amount: Balance,
            r: Result<Transfer, DispatchError>,
        | #[trigger] summoned(pre, post, who, name, amount, r);
        summon_keeps_consistency(pre, post, who, name, amount, r);
    } else if exists|who: AccountId, org_id: u64, amount: Balance, r: Result<Transfer, DispatchError>|
        #[trigger] donated(pre, post, who, org_id, amount, r) && pre.orgs.contains_key(org_id)
            && donation_fits(pre, who, org_id, amount) {
        let (who, org_id, amount, r) = choose|
            who: AccountId,
            org_id: u64,
            amount: Balance,
            r: Result<Transfer, DispatchError>,
        | #[trigger] donated(pre, post, who, org_id, amount, r) && pre.orgs.contains_key(org_id)
            && donation_fits(pre, who, org_id, amount);
        donate_keeps_consistency(pre, post, who, org_id, amount, r);
    } else if exists|who: AccountId, org_id: u64, payment: Balance, detail: Seq<u8>|
        #[trigger] proposal_submitted(pre, post, who, org_id, payment, detail)
            && pre.orgs.contains_key(org_id) {
        let (who, org_id, payment, detail) = choose|
            who: AccountId,
            org_id: u64,
            payment: Balance,
            detail: Seq<u8>,
        | #[trigger] proposal_submitted(pre, post, who, org_id, payment, detail)
            && pre.orgs.contains_key(org_id);
        submit_proposal_keeps_consistency(pre, post, who, org_id, payment, detail);
        let id = counter_at(pre.next_proposal_id, org_id);
        assert(counter_at(pre.next_proposal_id, org_id) < u64::MAX);
        assert(!pre.proposals.contains_key((org_id, id)));
    } else if exists|who: AccountId, org_id: u64, proposal_id: u64, vote_unit: u8, now: u64|
        #[trigger] voted(pre, post, who, org_id, proposal_id, vote_unit, now) && vote_accepted(
            pre,
            Some(who),
            org_id,
            proposal_id,
        ) && vote_fits(pre.proposals[(org_id, proposal_id)], vote_unit) {
        let (who, org_id, proposal_id, vote_unit, now) = choose|
            who: AccountId,
            org_id: u64,
            proposal_id: u64,
            vote_unit: u8,
            now: u64,
        | #[trigger] voted(pre, post, who, org_id, proposal_id, vote_unit, now) && vote_accepted(
            pre,
            Some(who),
            org_id,
            proposal_id,
        ) && vote_fits(pre.proposals[(org_id, proposal_id)], vote_unit);
        submit_vote_keeps_consistency(pre, post, who, org_id, proposal_id, vote_unit, now);
        vote_keeps_payouts(pre, post, who, org_id, proposal_id, vote_unit, now);
    } else {
        let (recipe_id, recipe) = choose|recipe_id: u64, recipe: Recipe| #[trigger] recipe_updated(
            pre,
            post,
            recipe_id,
            recipe,
        );
        recipe_update_keeps_consistency(pre, post, recipe_id, recipe);
        assert forall|r1: u64, r2: u64|
            #![trigger post.recipes[r1], post.recipes[r2]]
            post.recipes.contains_key(r1) && post.recipes.contains_key(r2) && r1 != r2 implies post.recipes[r1].action_id
                != post.recipes[r2].action_id && post.recipes[r1].triger_id != post.recipes[r2].triger_id by {
            assert(pre.recipes[r1].action_id != pre.recipes[r2].action_id);
        }
    }
}

/// An accepted vote keeps each passed proposal to one payout, where ids are
/// left, and only advances proposals.
proof fn vote_keeps_payouts(
    pre: PalletView,
    post: PalletView,
    who: AccountId,
    org_id: u64,
    proposal_id: u64,
    vote_unit: u8,
    now: u64,
)
    requires
        consistent(pre),
        payouts_unique(pre),
        ids_left(pre),
        vote_accepted(pre, Some(who), org_id, proposal_id),
        vote_fits(pre.proposals[(org_id, proposal_id)], vote_unit),
        voted(pre, post, who, org_id, proposal_id, vote_unit, now),
    ensures
        payouts_unique(post),
        proposals_advance(pre, post),
{
    let key = (org_id, proposal_id);
    let p = pre.proposals[key];
    assert(p.statue == ProposalStatue::Processing);
    assert forall|a: u64| #[trigger] pre.actions.contains_key(a) implies paid_proposal(pre.actions[a])
        != key by {
        assert(pre.proposals[paid_proposal(pre.actions[a])].statue != ProposalStatue::Processing);
    }
    let passes = vote_passes(p.votes, pre.orgs[org_id].member_count);
    if passes {
        let tid = or_zero(pre.next_triger_id);
        let aid = or_zero(pre.next_action_id);
        let rid = or_zero(pre.next_recipe_id);
        assert(!pre.trigers.contains_key(tid));
        assert(!pre.actions.contains_key(aid));
        assert(!pre.recipes.contains_key(rid));
        assert(post.actions == pre.actions.insert(
            aid,
            Action::TranferToken(org_id, proposal_id, p.proposer, p.payment_requested),
        ));
        assert(post.recipes == pre.recipes.insert(rid, payout_recipe(tid, aid)));
        assert forall|a1: u64, a2: u64|
            #![trigger post.actions[a1], post.actions[a2]]
            post.actions.contains_key(a1) && post.actions.contains_key(a2) && a1 != a2 implies paid_proposal(
                post.actions[a1],
            ) != paid_proposal(post.actions[a2]) by {
            if a1 != aid && a2 != aid {
                assert(paid_proposal(pre.actions[a1]) != paid_proposal(pre.actions[a2]));
            }
        }
        assert forall|r1: u64, r2: u64|
            #![trigger post.recipes[r1], post.recipes[r2]]
            post.recipes.contains_key(r1) && post.recipes.contains_key(r2) && r1 != r2 implies post.recipes[r1].action_id
                != post.recipes[r2].action_id && post.recipes[r1].triger_id != post.recipes[r2].triger_id by {
            if r1 != rid && r2 != rid {
                assert(pre.recipes[r1].action_id != pre.recipes[r2].action_id);
            } else if r1 == rid {
                assert(pre.actions.contains_key(pre.recipes[r2].action_id));
                assert(pre.trigers.contains_key(pre.recipes[r2].triger_id));
            } else {
                assert(pre.actions.contains_key(pre.recipes[r1].action_id));
                assert(pre.trigers.contains_key(pre.recipes[r1].triger_id));
            }
        }
    }
}

/// What stays true from one state of a run to a later one.
proof fn lemma_advance_transitive(a: PalletView, b: PalletView, c: PalletView)
    requires
        proposals_advance(a, b),
        proposals_advance(b, c),
    ensures
        proposals_advance(a, c),
{
}

/// Over any run of calls from a consistent storage with at most one payout
/// per passed proposal, in which no id counter runs out: every state stays
/// consistent with at most one trigger, action and recipe per passed
/// proposal; a proposal, once filed, stays, and its status only moves from
/// being voted on to paying out, never back; and once it left being voted on,
/// no later vote on it is accepted.
pub proof fn runs_only_advance_proposals(run: Seq<PalletView>)
    requires
        run.len() > 0,
        consistent(run[0]),
        payouts_unique(run[0]),
        forall|i: int| 0 <= i < run.len() - 1 ==> #[trigger] call_step(run[i], run[i + 1]),
        forall|i: int| 0 <= i < run.len() - 1 ==> #[trigger] ids_left(run[i]),
    ensures
        forall|i: int| 0 <= i < run.len() ==> consistent(#[trigger] run[i]) && payouts_unique(run[i]),
        forall|i: int, j: int| 0 <= i <= j < run.len() ==> proposals_advance(#[trigger] run[i], #[trigger] run[j]),
        forall|i: int, j: int, k: (u64, u64), who: Option<AccountId>|
            0 <= i <= j < run.len() && #[trigger] run[i].proposals.contains_key(k)
                && run[i].proposals[k].statue != ProposalStatue::Processing ==> #[trigger] vote_outcome(
                run[j],
                who,
                k.0,
                k.1,
            ) is Err,
    decreases run.len(),
{
    let n = run.len();
    if n > 1 {
        let prefix = run.drop_last();
        assert forall|i: int| 0 <= i < prefix.len() - 1 implies #[trigger] call_step(prefix[i], prefix[i + 1]) by {
            assert(call_step(run[i], run[i + 1]));
        }
        assert forall|i: int| 0 <= i < prefix.len() - 1 implies #[trigger] ids_left(prefix[i]) by {
            assert(ids_left(run[i]));
        }
        runs_only_advance_proposals(prefix);
        let last = run[n - 2];
        assert(prefix[n - 2] == last);
        let i_last: int = n - 2;
        assert(call_step(run[i_last], run[i_last + 1]));
        assert(ids_left(run[i_last]));
        assert(i_last + 1 == n - 1);
        call_step_laws(last, run[n - 1]);
        assert forall|i: int| 0 <= i < n implies consistent(#[trigger] run[i]) && payouts_unique(run[i]) by {
            if i < n - 1 {
                assert(prefix[i] == run[i]);
            }
        }
        assert forall|i: int, j: int| 0 <= i <= j < n implies proposals_advance(#[trigger] run[i], #[trigger] run[j]) by {
            if j < n - 1 {
                assert(prefix[i] == run[i] && prefix[j] == run[j]);
            } else if i < n - 1 {
                assert(prefix[i] == run[i]);
                assert(proposals_advance(prefix[i], prefix[n - 2]));
                lemma_advance_transitive(run[i], run[n - 2], run[n - 1]);
            }
        }
    }
    assert forall|i: int, j: int, k: (u64, u64), who: Option<AccountId>|
        0 <= i <= j < run.len() && #[trigger] run[i].proposals.contains_key(k)
            && run[i].proposals[k].statue != ProposalStatue::Processing implies #[trigger] vote_outcome(
            run[j],
            who,
            k.0,
            k.1,
        ) is Err by {
        assert(proposals_advance(run[i], run[j]));
    }
}

/// One organisation's records agree: its member count is the number of its
/// members, its total shares the sum of their shares, and the index from
/// accounts to organisations matches its members.
pub open spec fn org_consistent(v: PalletView, org_id: u64) -> bool {
    &&& v.orgs.contains_key(org_id)
    &&& members_of(v.members, org_id).finite()
    &&& v.orgs[org_id].member_count == members_of(v.members, org_id).len()
    &&& v.orgs[org_id].total_shares == share_sum(v.members, members_of(v.members, org_id))
    &&& forall|who: AccountId|
        #[trigger] v.members.contains_key((org_id, who)) <==> v.member_orgs.contains((who, org_id))
}

/// A donation keeps the records of the organisation it goes to in
/// agreement, whatever holds of the other organisations.
pub proof fn donate_keeps_org_consistency(
    pre: PalletView,
    post: PalletView,
    who: AccountId,
    org_id: u64,
    amount: Balance,
    r: Result<Transfer, DispatchError>,
)
    requires
        org_consistent(pre, org_id),
        donation_fits(pre, who, org_id, amount),
        donated(pre, post, who, org_id, amount, r),
    ensures
        org_consistent(post, org_id),
{
    let key = (org_id, who);
    let is_new = !pre.members.contains_key(key);
    let old_shares: Balance = if is_new { 0 } else { pre.members[key].shares };
    let m = Member { shares: (old_shares + amount) as u128 };
    assert(post.members == pre.members.insert(key, m));
    let before = members_of(pre.members, org_id);
    let after = members_of(post.members, org_id);
    if is_new {
        assert(after =~= before.insert(key));
        lemma_share_sum_insert(post.members, before, key);
        lemma_share_sum_agree(post.members, pre.members, before);
    } else {
        assert(after =~= before);
        let rest = before.remove(key);
        lemma_share_sum_remove(post.members, before, key);
        lemma_share_sum_remove(pre.members, before, key);
        lemma_share_sum_agree(post.members, pre.members, rest);
    }
    assert forall|a: AccountId| #[trigger] post.members.contains_key((org_id, a)) <==> post.member_orgs.contains(
        (a, org_id),
    ) by {
        assert(pre.members.contains_key((org_id, a)) <==> pre.member_orgs.contains((a, org_id)));
    }
}

/// The transfers planned for fired recipes, one by one: each pays exactly
/// what its recipe's action says (that action's organisation, proposal,
/// receiver and amount, with the recipe's count, at the given block); each
/// comes from a fired recipe, with its id and count; every fired recipe whose
/// action exists has one; and where the fired recipes come by increasing id,
/// so do the transfers.
pub proof fn planned_transfers_follow_actions(
    running: Seq<(u64, Recipe)>,
    actions: Map<u64, Action>,
    block_number: BlockNumber,
)
    ensures
        forall|j: int|
            0 <= j < planned_transfers(running, actions, block_number).len() ==> {
                let t = #[trigger] planned_transfers(running, actions, block_number)[j];
                &&& actions.contains_key(t.recipe.action_id)
                &&& match actions[t.recipe.action_id] {
                    Action::TranferToken(org_id, proposal_id, reciver, amount) => t.call
                        == Call::TranferUnsigned {
                        org_id,
                        proposal_id,
                        times: t.recipe.times,
                        block_number,
                        reciver,
                        amount,
                    },
                }
            },
        forall|j: int|
            0 <= j < planned_transfers(running, actions, block_number).len() ==> exists|i: int|
                0 <= i < running.len() && running[i].0 == (#[trigger] planned_transfers(
                    running,
                    actions,
                    block_number,
                )[j]).recipe_id && running[i].1 == planned_transfers(running, actions, block_number)[j].recipe,
        forall|i: int|
            0 <= i < running.len() && actions.contains_key(#[trigger] running[i].1.action_id)
                ==> exists|j: int|
                0 <= j < planned_transfers(running, actions, block_number).len()
                    && planned_transfers(running, actions, block_number)[j].recipe_id == running[i].0
                    && planned_transfers(running, actions, block_number)[j].recipe == running[i].1,
        planned_transfers(running, actions, block_number).len() <= running.len(),
        ids_increase(running) ==> forall|j: int, k: int|
            0 <= j < k < planned_transfers(running, actions, block_number).len()
                ==> planned_transfers(running, actions, block_number)[j].recipe_id
                < planned_transfers(running, actions, block_number)[k].recipe_id,
    decreases running.len(),
{
    let p = planned_transfers(running, actions, block_number);
    if running.len() > 0 {
        let prev = running.drop_last();
        planned_transfers_follow_actions(prev, actions, block_number);
        let before = planned_transfers(prev, actions, block_number);
        let n = running.len();
        let (id, recipe) = running.last();
        assert forall|i: int| 0 <= i < n - 1 implies prev[i] == running[i] by {}
        if actions.contains_key(recipe.action_id) {
            assert(p == before.push(
                PlannedTransfer {
                    recipe_id: id,
                    recipe,
                    call: transfer_call(recipe, actions, block_number),
                },
            ));
            assert forall|j: int| 0 <= j < p.len() implies exists|i: int|
                0 <= i < running.len() && running[i].0 == (#[trigger] p[j]).recipe_id && running[i].1
                    == p[j].recipe by {
                if j < before.len() {
                    assert(p[j] == before[j]);
                    let i = choose|i: int|
                        0 <= i < prev.len() && prev[i].0 == (#[trigger] before[j]).recipe_id
                            && prev[i].1 == before[j].recipe;
                    assert(running[i] == prev[i]);
                } else {
                    assert(running[n - 1] == (id, recipe));
                }
            }
            assert forall|i: int|
                0 <= i < running.len() && actions.contains_key(#[trigger] running[i].1.action_id)
                    implies exists|j: int|
                0 <= j < p.len() && p[j].recipe_id == running[i].0 && p[j].recipe == running[i].1 by {
                if i < n - 1 {
                    assert(prev[i] == running[i]);
                    assert(actions.contains_key(prev[i].1.action_id));
                    let j = choose|j: int|
                        0 <= j < before.len() && before[j].recipe_id == prev[i].0 && before[j].recipe
                            == prev[i].1;
                    assert(p[j] == before[j]);
                } else {
                    assert(p[p.len() - 1].recipe_id == running[i].0);
                }
            }
            if ids_increase(running) {
                assert(ids_increase(prev));
                assert forall|j: int| 0 <= j < before.len() implies before[j].recipe_id < id by {
                    let i = choose|i: int|
                        0 <= i < prev.len() && prev[i].0 == (#[trigger] before[j]).recipe_id
                            && prev[i].1 == before[j].recipe;
                    assert(running[i] == prev[i]);
                    assert(running[i].0 < running[n - 1].0);
                }
                assert forall|j: int, k: int| 0 <= j < k < p.len() implies p[j].recipe_id
                    < p[k].recipe_id by {
                    assert(p[j] == before[j]);
                    if k < before.len() {
                        assert(p[k] == before[k]);
                    }
                }
            }
        } else {
            assert(p == before);
            assert forall|j: int| 0 <= j < p.len() implies exists|i: int|
                0 <= i < running.len() && running[i].0 == (#[trigger] p[j]).recipe_id && running[i].1
                    == p[j].recipe by {
                let i = choose|i: int|
                    0 <= i < prev.len() && prev[i].0 == (#[trigger] before[j]).recipe_id
                        && prev[i].1 == before[j].recipe;
                assert(running[i] == prev[i]);
            }
            assert forall|i: int|
                0 <= i < running.len() && actions.contains_key(#[trigger] running[i].1.action_id)
                    implies exists|j: int|
                0 <= j < p.len() && p[j].recipe_id == running[i].0 && p[j].recipe == running[i].1 by {
                assert(i < n - 1);
                assert(prev[i] == running[i]);
                assert(actions.contains_key(prev[i].1.action_id));
            }
            if ids_increase(running) {
                assert(ids_increase(prev));
            }
        }
    }
}

/// A vote passes its proposal exactly when the count with it exceeds two
/// thirds of the member count, rounded down to a multiple of two: then the
/// proposal pays out, through a new trigger, action and recipe that pay its
/// payment to its proposer; otherwise it stays open, and no trigger, action
/// or recipe is made. Either way the vote is counted once, as an approval for
/// a `vote_unit` of 0 and a denial for 1.
pub proof fn vote_passes_at_two_thirds(
    pre: PalletView,
    post: PalletView,
    who: AccountId,
    org_id: u64,
    proposal_id: u64,
    vote_unit: u8,
    now: u64,
)
    requires
        vote_accepted(pre, Some(who), org_id, proposal_id),
        vote_fits(pre.proposals[(org_id, proposal_id)], vote_unit),
        voted(pre, post, who, org_id, proposal_id, vote_unit, now),
    ensures
        ({
            let key = (org_id, proposal_id);
            let p = pre.proposals[key];
            let q = post.proposals[key];
            let threshold = pre.orgs[org_id].member_count / 3 * 2;
            &&& post.proposals.contains_key(key)
            &&& q.votes == p.votes + 1
            &&& q.approve_votes == p.approve_votes + if vote_unit == 0 { 1int } else { 0int }
            &&& q.deny_votes == p.deny_votes + if vote_unit == 1 { 1int } else { 0int }
            &&& q.proposer == p.proposer && q.payment_requested == p.payment_requested
            &&& p.votes + 1 > threshold ==> {
                let rid = or_zero(pre.next_recipe_id);
                let recipe = post.recipes[rid];
                &&& q.statue == ProposalStatue::Transfering
                &&& post.recipes.contains_key(rid)
                &&& post.actions.contains_key(recipe.action_id)
                &&& post.actions[recipe.action_id] == Action::TranferToken(
                    org_id,
                    proposal_id,
                    p.proposer,
                    p.payment_requested,
                )
                &&& post.trigers.contains_key(recipe.triger_id)
                &&& post.trigers[recipe.triger_id] == Triger::Timer(now, 60, 12)
                &&& recipe.enable && !recipe.done && recipe.times == 0 && recipe.max_times == 12
            }
            &&& p.votes + 1 <= threshold ==> {
                &&& q.statue == ProposalStatue::Processing
                &&& post.recipes == pre.recipes
                &&& post.actions == pre.actions
                &&& post.trigers == pre.trigers
            }
        }),
{
}

} // verus!
