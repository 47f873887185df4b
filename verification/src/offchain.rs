//! The off-chain worker's decisions, and which unsigned transactions the
//! pallet accepts.
//!
//! In each block the off-chain worker keeps, in local storage, the recipes it
//! tracks, by id. Holding the storage lock, it brings them in line with the
//! recipes on chain and fires those whose timer has run out. For each fired
//! recipe whose action is a transfer it submits that transfer as an unsigned
//! transaction; where that submission went through, it submits the recipe's
//! new count and, once the count reached the recipe's maximum, marks it done.
//! Reading and writing local storage, taking the lock, the clock and the
//! submissions are the runtime's; this module decides what to do.

use vstd::prelude::*;
use std::collections::BTreeMap;
use crate::ordered_keys::keys_in_order;
use crate::pallet::{Pallet, PalletView};
use crate::laws::{fire_law, planned_transfers_follow_actions, sync_law};
use crate::types::{Action, BlockNumber, Call, Recipe, Triger};
use crate::encoding::{encode_prefixed_tag, scale_bytes};
use vstd::string::{is_ascii, StrSliceExecFns};

verus! {

/// Whether a recipe on chain is one the worker tracks.
pub open spec fn is_live(r: Recipe) -> bool {
    r.enable && !r.done
}

/// A recipe as the worker starts tracking it: enabled, with its trigger and
/// action, and every count at zero.
pub open spec fn fresh_task(r: Recipe) -> Recipe {
    Recipe {
        triger_id: r.triger_id,
        action_id: r.action_id,
        enable: true,
        times: 0,
        max_times: 0,
        done: false,
        last_triger_timestamp: 0,
        force_stop: false,
    }
}

/// The tracked recipes after taking the recipes on chain with ids in `seen`
/// into account: a live one is kept, or starts to be tracked; one that is
/// not live is dropped; any other tracked recipe stays as it was.
pub open spec fn synced_over(tasks: Map<u64, Recipe>, recipes: Map<u64, Recipe>, seen: Set<u64>) -> Map<
    u64,
    Recipe,
> {
    Map::new(
        |id: u64|
            if seen.contains(id) && recipes.contains_key(id) {
                is_live(recipes[id])
            } else {
                tasks.contains_key(id)
            },
        |id: u64|
            if tasks.contains_key(id) {
                tasks[id]
            } else {
                fresh_task(recipes[id])
            },
    )
}

/// The tracked recipes brought in line with every recipe on chain.
pub open spec fn synced_tasks(tasks: Map<u64, Recipe>, recipes: Map<u64, Recipe>) -> Map<u64, Recipe> {
    synced_over(tasks, recipes, recipes.dom())
}

/// Whether a tracked recipe's timer has run out at `now`: its trigger is a
/// timer, and its start plus one period for each time it fired is before
/// `now`.
pub open spec fn is_due(task: Recipe, trigers: Map<u64, Triger>, now: u64) -> bool {
    trigers.contains_key(task.triger_id) && match trigers[task.triger_id] {
        Triger::Timer(insert_time, timer_seconds, _) => insert_time + task.times * timer_seconds < now,
    }
}

/// A tracked recipe that fired once more.
pub open spec fn fired(task: Recipe) -> Recipe {
    Recipe { times: (task.times + 1) as u64, ..task }
}

/// The arithmetic of checking and firing one tracked recipe stays in range.
pub open spec fn timer_fits(task: Recipe, trigers: Map<u64, Triger>, now: u64) -> bool {
    trigers.contains_key(task.triger_id) ==> match trigers[task.triger_id] {
        Triger::Timer(insert_time, timer_seconds, _) => {
            &&& insert_time + task.times * timer_seconds <= u64::MAX
            &&& insert_time + task.times * timer_seconds < now ==> task.times < u64::MAX
        },
    }
}

/// The arithmetic of checking and firing the tracked recipes stays in range:
/// the worker would overflow otherwise.
pub open spec fn timers_fit(tasks: Map<u64, Recipe>, trigers: Map<u64, Triger>, now: u64) -> bool {
    forall|id: u64| #[trigger] tasks.contains_key(id) ==> timer_fits(tasks[id], trigers, now)
}

/// The tracked recipes after firing those that are due.
pub open spec fn fired_tasks(tasks: Map<u64, Recipe>, trigers: Map<u64, Triger>, now: u64) -> Map<
    u64,
    Recipe,
> {
    Map::new(
        |id: u64| tasks.contains_key(id),
        |id: u64|
            if is_due(tasks[id], trigers, now) {
                fired(tasks[id])
            } else {
                tasks[id]
            },
    )
}

/// The recipes among `keys` that are due, in the order of `keys`, each paired
/// with its id and counting the time it fires now.
pub open spec fn due_in_order(keys: Seq<u64>, tasks: Map<u64, Recipe>, trigers: Map<u64, Triger>, now: u64) -> Seq<
    (u64, Recipe),
>
    decreases keys.len(),
{
    if keys.len() == 0 {
        Seq::empty()
    } else {
        let before = due_in_order(keys.drop_last(), tasks, trigers, now);
        let id = keys.last();
        if is_due(tasks[id], trigers, now) {
            before.push((id, fired(tasks[id])))
        } else {
            before
        }
    }
}

/// A sequence of pairs whose first items strictly increase.
pub open spec fn ids_increase<T>(s: Seq<(u64, T)>) -> bool {
    forall|i: int, j: int| 0 <= i < j < s.len() ==> s[i].0 < s[j].0
}

/// The recipes that fire: exactly the due ones, in increasing id order, each
/// with its new count.
pub open spec fn is_firing_list(
    running: Seq<(u64, Recipe)>,
    tasks: Map<u64, Recipe>,
    trigers: Map<u64, Triger>,
    now: u64,
) -> bool {
    &&& ids_increase(running)
    &&& forall|id: u64|
        (exists|i: int| 0 <= i < running.len() && running[i].0 == id) <==> (tasks.contains_key(id)
            && is_due(tasks[id], trigers, now))
    &&& forall|i: int|
        0 <= i < running.len() ==> #[trigger] running[i].1 == fired(tasks[running[i].0])
}

/// A transfer that a fired recipe asks for, with the unsigned call that
/// makes it.
#[derive(Debug, PartialEq, Eq)]
pub struct PlannedTransfer {
    pub recipe_id: u64,
    pub recipe: Recipe,
    pub call: Call,
}

/// The unsigned transfer call for a fired recipe whose action is a transfer.
pub open spec fn transfer_call(
    recipe: Recipe,
    actions: Map<u64, Action>,
    block_number: BlockNumber,
) -> Call {
    match actions[recipe.action_id] {
        Action::TranferToken(org_id, proposal_id, reciver, amount) => Call::TranferUnsigned {
            org_id,
            proposal_id,
            times: recipe.times,
            block_number,
            reciver,
            amount,
        },
    }
}

/// The transfers that the fired recipes ask for, in their order: one for
/// each whose action exists.
pub open spec fn planned_transfers(
    running: Seq<(u64, Recipe)>,
    actions: Map<u64, Action>,
    block_number: BlockNumber,
) -> Seq<PlannedTransfer>
    decreases running.len(),
{
    if running.len() == 0 {
        Seq::empty()
    } else {
        let before = planned_transfers(running.drop_last(), actions, block_number);
        let (id, recipe) = running.last();
        if actions.contains_key(recipe.action_id) {
            before.push(
                PlannedTransfer {
                    recipe_id: id,
                    recipe,
                    call: transfer_call(recipe, actions, block_number),
                },
            )
        } else {
            before
        }
    }
}

/// The calls that follow a submitted transfer: the recipe's new count, and
/// marking it done once the count reached its maximum. None follow a
/// transfer whose submission failed.
pub open spec fn follow_up(
    planned: PlannedTransfer,
    transfer_submitted: bool,
    block_number: BlockNumber,
    now: u64,
) -> Seq<Call> {
    if !transfer_submitted {
        Seq::empty()
    } else {
        let update = Call::UpdateRecipeTrigerTimesUnsigned {
            block_number,
            recipe_id: planned.recipe_id,
            times: planned.recipe.times,
            timestamp: now,
        };
        if planned.recipe.times >= planned.recipe.max_times {
            seq![update, Call::SetRecipeDoneUnsigned { block_number, recipe_id: planned.recipe_id }]
        } else {
            seq![update]
        }
    }
}

/// Over strictly increasing keys, the due items come with increasing ids,
/// are exactly the due keys, and each counts the time it fires now.
proof fn lemma_due_in_order(keys: Seq<u64>, tasks: Map<u64, Recipe>, trigers: Map<u64, Triger>, now: u64)
    requires
        forall|i: int, j: int| 0 <= i < j < keys.len() ==> keys[i] < keys[j],
    ensures
        ids_increase(due_in_order(keys, tasks, trigers, now)),
        forall|id: u64|
            (exists|i: int|
                0 <= i < due_in_order(keys, tasks, trigers, now).len() && due_in_order(
                    keys,
                    tasks,
                    trigers,
                    now,
                )[i].0 == id) <==> (keys.contains(id) && is_due(tasks[id], trigers, now)),
        forall|i: int|
            0 <= i < due_in_order(keys, tasks, trigers, now).len() ==> #[trigger] due_in_order(
                keys,
                tasks,
                trigers,
                now,
            )[i].1 == fired(tasks[due_in_order(keys, tasks, trigers, now)[i].0]),
        forall|i: int|
            0 <= i < due_in_order(keys, tasks, trigers, now).len() ==> keys.contains(
                #[trigger] due_in_order(keys, tasks, trigers, now)[i].0,
            ),
    decreases keys.len(),
{
    if keys.len() > 0 {
        let prefix = keys.drop_last();
        lemma_due_in_order(prefix, tasks, trigers, now);
        let before = due_in_order(prefix, tasks, trigers, now);
        let r = due_in_order(keys, tasks, trigers, now);
        let id = keys.last();
        assert forall|i: int| 0 <= i < before.len() implies before[i].0 < id by {
            assert(prefix.contains(before[i].0));
            let k = choose|k: int| 0 <= k < prefix.len() && prefix[k] == before[i].0;
            assert(keys[k] < keys[keys.len() - 1]);
        }
        assert forall|x: u64| #[trigger] keys.contains(x) <==> (prefix.contains(x) || x == id) by {
            if keys.contains(x) {
                let k = choose|k: int| 0 <= k < keys.len() && keys[k] == x;
                if k < keys.len() - 1 {
                    assert(prefix[k] == x);
                }
            }
            if prefix.contains(x) {
                let k = choose|k: int| 0 <= k < prefix.len() && prefix[k] == x;
                assert(keys[k] == x);
            }
            if x == id {
                assert(keys[keys.len() - 1] == x);
            }
        }
        if is_due(tasks[id], trigers, now) {
            assert(r == before.push((id, fired(tasks[id]))));
            assert forall|x: u64|
                (exists|i: int| 0 <= i < r.len() && r[i].0 == x) <==> (keys.contains(x) && is_due(
                    tasks[x],
                    trigers,
                    now,
                )) by {
                if keys.contains(x) && is_due(tasks[x], trigers, now) {
                    if x == id {
                        assert(r[r.len() - 1].0 == x);
                    } else {
                        assert(prefix.contains(x));
                        let i = choose|i: int| 0 <= i < before.len() && before[i].0 == x;
                        assert(r[i].0 == x);
                    }
                }
                if exists|i: int| 0 <= i < r.len() && r[i].0 == x {
                    let i = choose|i: int| 0 <= i < r.len() && r[i].0 == x;
                    if i < before.len() {
                        assert(before[i].0 == x);
                    }
                }
            }
            assert forall|i: int| 0 <= i < r.len() implies keys.contains(#[trigger] r[i].0) by {
                if i < before.len() {
                    assert(before[i] == r[i]);
                    assert(prefix.contains(before[i].0));
                }
            }
            assert forall|i: int| 0 <= i < r.len() implies #[trigger] r[i].1 == fired(tasks[r[i].0]) by {
                if i < before.len() {
                    assert(before[i] == r[i]);
                }
            }
        } else {
            assert(r == before);
            assert forall|x: u64|
                (exists|i: int| 0 <= i < r.len() && r[i].0 == x) <==> (keys.contains(x) && is_due(
                    tasks[x],
                    trigers,
                    now,
                )) by {
                if keys.contains(x) && is_due(tasks[x], trigers, now) {
                    assert(x != id);
                    assert(prefix.contains(x));
                }
            }
        }
    }
}

impl Pallet {
    /// Brings the tracked recipes in line with the recipes on chain: a live
    /// recipe starts to be tracked where it is not yet, one that is disabled
    /// or done stops being tracked, and any other tracked recipe stays.
    pub fn sync_recipe_tasks(&self, tasks: &mut BTreeMap<u64, Recipe>)
        ensures
            final(tasks)@ == synced_tasks(old(tasks)@, self@.recipes),
            forall|id: u64|
                #![trigger final(tasks)@.contains_key(id)]
                self@.recipes.contains_key(id) ==> (final(tasks)@.contains_key(id) <==> (
                self@.recipes[id].enable && !self@.recipes[id].done)),
            forall|id: u64|
                #![trigger final(tasks)@[id]]
                final(tasks)@.contains_key(id) && old(tasks)@.contains_key(id) ==> final(tasks)@[id]
                    == old(tasks)@[id],
    {
        let recipes = self.recipe_map();
        let keys = keys_in_order(recipes);
        let ghost start = tasks@;
        let mut i: usize = 0;
        while i < keys.len()
            invariant
                i <= keys.len(),
                recipes@ == self@.recipes,
                start == old(tasks)@,
                forall|k: u64| recipes@.contains_key(k) <==> keys@.contains(k),
                tasks@ == synced_over(
                    start,
                    recipes@,
                    Set::new(|id: u64| exists|k: int| 0 <= k < i && keys@[k] == id),
                ),
            decreases keys.len() - i,
        {
            let ghost seen = Set::new(|id: u64| exists|k: int| 0 <= k < i && keys@[k] == id);
            let id = keys[i];
            proof {
                assert(keys@.contains(id));
            }
            let recipe = *recipes.get(&id).unwrap();
            if recipe.enable && !recipe.done {
                if !tasks.contains_key(&id) {
                    tasks.insert(
                        id,
                        Recipe {
                            triger_id: recipe.triger_id,
                            action_id: recipe.action_id,
                            enable: true,
                            times: 0,
                            max_times: 0,
                            done: false,
                            last_triger_timestamp: 0,
                            force_stop: false,
                        },
                    );
                }
            } else {
                tasks.remove(&id);
            }
            let ghost seen2 = Set::new(|x: u64| exists|k: int| 0 <= k < i + 1 && keys@[k] == x);
            proof {
                assert(seen2 =~= seen.insert(id)) by {
                    assert forall|x: u64| seen2.contains(x) implies seen.insert(id).contains(x) by {
                        let k = choose|k: int| 0 <= k < i + 1 && keys@[k] == x;
                        if k < i {
                            assert(seen.contains(x));
                        }
                    }
                    assert forall|x: u64| seen.insert(id).contains(x) implies seen2.contains(x) by {
                        if x == id {
                            assert(keys@[i as int] == x);
                        } else {
                            let k = choose|k: int| 0 <= k < i && keys@[k] == x;
                            assert(0 <= k < i + 1 && keys@[k] == x);
                        }
                    }
                }
                assert(tasks@ =~= synced_over(start, recipes@, seen2));
            }
            i = i + 1;
        }
        proof {
            let seen = Set::new(|id: u64| exists|k: int| 0 <= k < i && keys@[k] == id);
            assert forall|id: u64| seen.contains(id) <==> recipes@.dom().contains(id) by {
                if recipes@.dom().contains(id) {
                    assert(keys@.contains(id));
                    let k = choose|k: int| 0 <= k < keys@.len() && keys@[k] == id;
                    assert(0 <= k < i && keys@[k] == id);
                }
                if seen.contains(id) {
                    let k = choose|k: int| 0 <= k < i && keys@[k] == id;
                    assert(keys@.contains(id));
                }
            }
            assert(seen =~= recipes@.dom());
            sync_law(old(tasks)@, self@.recipes);
        }
    }

    /// Fires the tracked recipes whose timer ran out at `now`, counting one
    /// more time for each, and returns them by increasing id.
    pub fn fire_due_recipes(&self, tasks: &mut BTreeMap<u64, Recipe>, now: u64) -> (running: Vec<
        (u64, Recipe),
    >)
        requires
            timers_fit(old(tasks)@, self@.trigers, now),
        ensures
            final(tasks)@ == fired_tasks(old(tasks)@, self@.trigers, now),
            is_firing_list(running@, old(tasks)@, self@.trigers, now),
            final(tasks)@.dom() == old(tasks)@.dom(),
            forall|id: u64|
                #![trigger final(tasks)@[id]]
                old(tasks)@.contains_key(id) ==> final(tasks)@[id] == if self@.trigers.contains_key(
                    old(tasks)@[id].triger_id,
                ) {
                    match self@.trigers[old(tasks)@[id].triger_id] {
                        Triger::Timer(insert_time, timer_seconds, _) => if insert_time + old(
                            tasks,
                        )@[id].times * timer_seconds < now {
                            Recipe { times: (old(tasks)@[id].times + 1) as u64, ..old(tasks)@[id] }
                        } else {
                            old(tasks)@[id]
                        },
                    }
                } else {
                    old(tasks)@[id]
                },
    {
        let trigers = self.triger_map();
        let keys = keys_in_order(tasks);
        let ghost start = tasks@;
        let mut running: Vec<(u64, Recipe)> = Vec::new();
        let mut i: usize = 0;
        while i < keys.len()
            invariant
                i <= keys.len(),
                trigers@ == self@.trigers,
                start == old(tasks)@,
                timers_fit(start, trigers@, now),
                forall|k: u64| start.contains_key(k) <==> keys@.contains(k),
                forall|a: int, b: int| 0 <= a < b < keys@.len() ==> keys@[a] < keys@[b],
                tasks@.dom() == start.dom(),
                forall|id: u64|
                    #![trigger tasks@[id]]
                    start.contains_key(id) ==> tasks@[id] == if (exists|k: int|
                        0 <= k < i && keys@[k] == id) && is_due(start[id], trigers@, now) {
                        fired(start[id])
                    } else {
                        start[id]
                    },
                running@ == due_in_order(keys@.take(i as int), start, trigers@, now),
            decreases keys.len() - i,
        {
            let id = keys[i];
            proof {
                assert(keys@.contains(id));
                assert(!(exists|k: int| 0 <= k < i && keys@[k] == id)) by {
                    if exists|k: int| 0 <= k < i && keys@[k] == id {
                        let k = choose|k: int| 0 <= k < i && keys@[k] == id;
                        assert(keys@[k] < keys@[i as int]);
                    }
                }
                assert(tasks@[id] == start[id]);
            }
            let task = *tasks.get(&id).unwrap();
            let due = match trigers.get(&task.triger_id) {
                Some(Triger::Timer(insert_time, timer_seconds, _)) => {
                    proof {
                        assert(start.contains_key(id));
                    }
                    *insert_time + task.times * *timer_seconds < now
                },
                None => false,
            };
            proof {
                assert(due == is_due(start[id], trigers@, now));
                assert(keys@.take(i + 1) =~= keys@.take(i as int).push(id));
                assert(keys@.take(i + 1).drop_last() =~= keys@.take(i as int));
            }
            if due {
                let updated = Recipe { times: task.times + 1, ..task };
                tasks.insert(id, updated);
                running.push((id, updated));
            }
            proof {
                assert forall|x: u64| #![trigger tasks@[x]] start.contains_key(x) implies tasks@[x]
                    == if (exists|k: int| 0 <= k < i + 1 && keys@[k] == x) && is_due(
                    start[x],
                    trigers@,
                    now,
                ) {
                    fired(start[x])
                } else {
                    start[x]
                } by {
                    if x != id {
                        if exists|k: int| 0 <= k < i + 1 && keys@[k] == x {
                            let k = choose|k: int| 0 <= k < i + 1 && keys@[k] == x;
                            assert(k != i);
                            assert(0 <= k < i && keys@[k] == x);
                        }
                    } else {
                        assert(0 <= i < i + 1 && keys@[i as int] == x);
                    }
                }
            }
            i = i + 1;
        }
        proof {
            assert(keys@.take(i as int) =~= keys@);
            lemma_due_in_order(keys@, start, trigers@, now);
            assert forall|id: u64| #![trigger tasks@[id]] start.contains_key(id) implies tasks@[id]
                == fired_tasks(start, trigers@, now)[id] by {
                assert(keys@.contains(id));
                let k = choose|k: int| 0 <= k < keys@.len() && keys@[k] == id;
                assert(0 <= k < i && keys@[k] == id);
            }
            assert(tasks@ =~= fired_tasks(start, trigers@, now));
            fire_law(start, trigers@, now);
        }
        running
    }

    /// Whether checking and firing the tracked recipes at `now` stays in
    /// range, as `fire_due_recipes` needs.
    pub fn timers_in_range(&self, tasks: &BTreeMap<u64, Recipe>, now: u64) -> (r: bool)
        ensures
            r == timers_fit(tasks@, self@.trigers, now),
    {
        let trigers = self.triger_map();
        let keys = keys_in_order(tasks);
        let mut i: usize = 0;
        while i < keys.len()
            invariant
                i <= keys.len(),
                trigers@ == self@.trigers,
                forall|k: u64| tasks@.contains_key(k) <==> keys@.contains(k),
                forall|k: int| 0 <= k < i ==> timer_fits(tasks@[#[trigger] keys@[k]], trigers@, now),
            decreases keys.len() - i,
        {
            let id = keys[i];
            proof {
                assert(keys@.contains(id));
            }
            let task = *tasks.get(&id).unwrap();
            let fits = match trigers.get(&task.triger_id) {
                Some(Triger::Timer(insert_time, timer_seconds, _)) => match task.times.checked_mul(
                    *timer_seconds,
                ) {
                    Some(product) => match insert_time.checked_add(product) {
                        Some(start) => !(start < now) || task.times < u64::MAX,
                        None => false,
                    },
                    None => {
                        proof {
                            assert(task.times * *timer_seconds <= *insert_time + task.times
                                * *timer_seconds);
                        }
                        false
                    },
                },
                None => true,
            };
            if !fits {
                return false;
            }
            i = i + 1;
        }
        proof {
            assert forall|id: u64| #[trigger] tasks@.contains_key(id) implies timer_fits(
                tasks@[id],
                trigers@,
                now,
            ) by {
                assert(keys@.contains(id));
                let k = choose|k: int| 0 <= k < keys@.len() && keys@[k] == id;
                assert(timer_fits(tasks@[keys@[k]], trigers@, now));
            }
        }
        true
    }

    /// The transfers that the fired recipes ask for, in their order, each
    /// with the unsigned call that makes it at `block_number`.
    pub fn transfer_calls(&self, running: &Vec<(u64, Recipe)>, block_number: BlockNumber) -> (r: Vec<
        PlannedTransfer,
    >)
        ensures
            r@ == planned_transfers(running@, self@.actions, block_number),
            forall|j: int|
                0 <= j < r@.len() ==> {
                    let t = #[trigger] r@[j];
                    &&& self@.actions.contains_key(t.recipe.action_id)
                    &&& match self@.actions[t.recipe.action_id] {
                        Action::TranferToken(org_id, proposal_id, reciver, amount) => t.call
                            == Call::TranferUnsigned {
                            org_id,
                            proposal_id,
                            times: t.recipe.times,
                            block_number,
                            reciver,
                            amount,
                        },
                    }
                },
            forall|i: int|
                0 <= i < running@.len() && self@.actions.contains_key(
                    #[trigger] running@[i].1.action_id,
                ) ==> exists|j: int|
                    0 <= j < r@.len() && r@[j].recipe_id == running@[i].0 && r@[j].recipe
                        == running@[i].1,
            forall|j: int|
                0 <= j < r@.len() ==> exists|i: int|
                    0 <= i < running@.len() && running@[i].0 == (#[trigger] r@[j]).recipe_id
                        && running@[i].1 == r@[j].recipe,
    {
        let actions = self.action_map();
        let mut r: Vec<PlannedTransfer> = Vec::new();
        let mut i: usize = 0;
        while i < running.len()
            invariant
                i <= running.len(),
                actions@ == self@.actions,
                r@ == planned_transfers(running@.take(i as int), actions@, block_number),
            decreases running.len() - i,
        {
            let (id, recipe) = running[i];
            proof {
                assert(running@.take(i + 1) =~= running@.take(i as int).push(running@[i as int]));
                assert(running@.take(i + 1).drop_last() =~= running@.take(i as int));
            }
            match actions.get(&recipe.action_id) {
                Some(Action::TranferToken(org_id, proposal_id, reciver, amount)) => {
                    let call = Call::TranferUnsigned {
                        org_id: *org_id,
                        proposal_id: *proposal_id,
                        times: recipe.times,
                        block_number,
                        reciver: *reciver,
                        amount: *amount,
                    };
                    r.push(PlannedTransfer { recipe_id: id, recipe, call });
                },
                None => {},
            }
            i = i + 1;
        }
        proof {
            assert(running@.take(i as int) =~= running@);
            planned_transfers_follow_actions(running@, actions@, block_number);
        }
        r
    }

    /// One round of the worker, up to the submissions: where it holds the
    /// lock, the tracked recipes brought in line and fired at `now`, and the
    /// transfers that the fired ones ask for; without the lock, the tracked
    /// recipes as they were and no transfer.
    pub fn plan_offchain_round(
        &self,
        tasks: BTreeMap<u64, Recipe>,
        lock_acquired: bool,
        now: u64,
        block_number: BlockNumber,
    ) -> (r: (BTreeMap<u64, Recipe>, Vec<PlannedTransfer>))
        requires
            lock_acquired ==> timers_fit(synced_tasks(tasks@, self@.recipes), self@.trigers, now),
        ensures
            !lock_acquired ==> r.0@ == tasks@ && r.1@.len() == 0,
            lock_acquired ==> {
                let synced = synced_tasks(tasks@, self@.recipes);
                &&& r.0@ == fired_tasks(synced, self@.trigers, now)
                &&& exists|running: Seq<(u64, Recipe)>|
                    is_firing_list(running, synced, self@.trigers, now) && r.1@ == planned_transfers(
                        running,
                        self@.actions,
                        block_number,
                    )
            },
    {
        let mut tasks = tasks;
        if !lock_acquired {
            return (tasks, Vec::new());
        }
        self.sync_recipe_tasks(&mut tasks);
        let running = self.fire_due_recipes(&mut tasks, now);
        let planned = self.transfer_calls(&running, block_number);
        (tasks, planned)
    }

    /// Whether an unsigned transaction is valid: the pallet's three unsigned
    /// calls are, with the pallet's priority, no required tag, one provided
    /// tag (the call's name under the prefix `"ocw-difttt"`), a longevity of
    /// three blocks and propagation; every other call is not.
    pub fn validate_unsigned(&self, call: &Call) -> (r: Result<ValidUnsigned, InvalidTransaction>)
        ensures
            r is Err <==> unsigned_tag(*call) is None,
            r matches Err(e) ==> e == InvalidTransaction::Call,
            r matches Ok(v) ==> {
                &&& v.priority == self@.unsigned_priority
                &&& v.requires@.len() == 0
                &&& v.provides@.len() == 1
                &&& v.provides@[0]@ == provided_tag(unsigned_tag(*call)->0)
                &&& v.longevity == 3
                &&& v.propagate
            },
    {
        let tag = match call {
            Call::TranferUnsigned { .. } => UnsignedTag::TranferUnsigned,
            Call::UpdateRecipeTrigerTimesUnsigned { .. } => UnsignedTag::UpdateRecipeTrigerTimesUnsigned,
            Call::SetRecipeDoneUnsigned { .. } => UnsignedTag::SetRecipeDoneUnsigned,
            _ => {
                return Err(InvalidTransaction::Call);
            },
        };
        let prefix = tag_prefix_bytes();
        let name = tag_bytes(tag);
        let provided = encode_prefixed_tag(&prefix, &name);
        let mut provides: Vec<Vec<u8>> = Vec::new();
        provides.push(provided);
        Ok(
            ValidUnsigned {
                priority: self.unsigned_priority(),
                requires: Vec::new(),
                provides,
                longevity: 3,
                propagate: true,
            },
        )
    }
}

/// The calls that follow a transfer submitted for a fired recipe.
pub fn follow_up_calls(
    planned: &PlannedTransfer,
    transfer_submitted: bool,
    block_number: BlockNumber,
    now: u64,
) -> (r: Vec<Call>)
    ensures
        r@ == follow_up(*planned, transfer_submitted, block_number, now),
        !transfer_submitted ==> r@.len() == 0,
        transfer_submitted ==> {
            &&& 1 <= r@.len() <= 2
            &&& r@[0] == Call::UpdateRecipeTrigerTimesUnsigned {
                block_number,
                recipe_id: planned.recipe_id,
                times: planned.recipe.times,
                timestamp: now,
            }
            &&& r@.len() == 2 <==> planned.recipe.times >= planned.recipe.max_times
            &&& r@.len() == 2 ==> r@[1] == Call::SetRecipeDoneUnsigned {
                block_number,
                recipe_id: planned.recipe_id,
            }
        },
{
    let mut r: Vec<Call> = Vec::new();
    if transfer_submitted {
        r.push(
            Call::UpdateRecipeTrigerTimesUnsigned {
                block_number,
                recipe_id: planned.recipe_id,
                times: planned.recipe.times,
                timestamp: now,
            },
        );
        if planned.recipe.times >= planned.recipe.max_times {
            r.push(Call::SetRecipeDoneUnsigned { block_number, recipe_id: planned.recipe_id });
        }
    }
    proof {
        assert(r@ =~= follow_up(*planned, transfer_submitted, block_number, now));
    }
    r
}

/// The tag that a valid unsigned transaction provides: one for each unsigned
/// call, named after it.
#[derive(Debug, Clone, Copy, PartialEq, Eq, Structural)]
pub enum UnsignedTag {
    TranferUnsigned,
    UpdateRecipeTrigerTimesUnsigned,
    SetRecipeDoneUnsigned,
}

/// A valid unsigned transaction's standing in the pool.
#[derive(Debug, Clone, PartialEq, Eq)]
pub struct ValidUnsigned {
    pub priority: u64,
    pub requires: Vec<Vec<u8>>,
    pub provides: Vec<Vec<u8>>,
    pub longevity: u64,
    pub propagate: bool,
}

/// Why an unsigned transaction is invalid.
#[derive(Debug, Clone, Copy, PartialEq, Eq, Structural)]
pub enum InvalidTransaction {
    /// The call is not one that may come unsigned.
    Call,
}

/// The bytes of a string of ASCII characters.
pub open spec fn ascii_bytes(s: Seq<char>) -> Seq<u8> {
    s.map_values(|c: char| c as u8)
}

/// The prefix under which the pallet's unsigned transactions provide tags.
pub open spec fn tag_prefix() -> Seq<u8> {
    ascii_bytes("ocw-difttt"@)
}

/// The name of a provided tag: its call's name.
pub open spec fn tag_name(tag: UnsignedTag) -> Seq<u8> {
    match tag {
        UnsignedTag::TranferUnsigned => ascii_bytes("tranfer_unsigned"@),
        UnsignedTag::UpdateRecipeTrigerTimesUnsigned => ascii_bytes(
            "update_recipe_triger_times_unsigned"@,
        ),
        UnsignedTag::SetRecipeDoneUnsigned => ascii_bytes("set_recipe_done_unsigned"@),
    }
}

/// The tag as provided: the encoded prefix followed by the encoded name.
pub open spec fn provided_tag(tag: UnsignedTag) -> Seq<u8> {
    scale_bytes(tag_prefix()) + scale_bytes(tag_name(tag))
}

/// The tag that a call provides, for the calls that may come unsigned.
pub open spec fn unsigned_tag(call: Call) -> Option<UnsignedTag> {
    match call {
        Call::TranferUnsigned { .. } => Some(UnsignedTag::TranferUnsigned),
        Call::UpdateRecipeTrigerTimesUnsigned { .. } => Some(
            UnsignedTag::UpdateRecipeTrigerTimesUnsigned,
        ),
        Call::SetRecipeDoneUnsigned { .. } => Some(UnsignedTag::SetRecipeDoneUnsigned),
        _ => None,
    }
}

/// The bytes of the prefix `"ocw-difttt"`.
pub fn tag_prefix_bytes() -> (r: Vec<u8>)
    ensures
        r@ == tag_prefix(),
        r@.len() == 10,
{
    let s = "ocw-difttt";
    proof {
        reveal_strlit("ocw-difttt");
        assert(is_ascii(s));
    }
    let r = s.as_bytes_vec();
    proof {
        assert(r@ =~= ascii_bytes(s@));
    }
    r
}

/// The bytes of a tag's name.
pub fn tag_bytes(tag: UnsignedTag) -> (r: Vec<u8>)
    ensures
        r@ == tag_name(tag),
        r@.len() <= 35,
{
    let s = match tag {
        UnsignedTag::TranferUnsigned => "tranfer_unsigned",
        UnsignedTag::UpdateRecipeTrigerTimesUnsigned => "update_recipe_triger_times_unsigned",
        UnsignedTag::SetRecipeDoneUnsigned => "set_recipe_done_unsigned",
    };
    proof {
        reveal_strlit("tranfer_unsigned");
        reveal_strlit("update_recipe_triger_times_unsigned");
        reveal_strlit("set_recipe_done_unsigned");
        assert(is_ascii(s));
    }
    let r = s.as_bytes_vec();
    proof {
        assert(r@ =~= ascii_bytes(s@));
    }
    r
}

} // verus!
