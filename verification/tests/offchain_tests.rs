use std::collections::BTreeMap;

use pallet_donate::offchain::{
    follow_up_calls, tag_bytes, tag_prefix_bytes, InvalidTransaction, PlannedTransfer,
    UnsignedTag, ValidUnsigned,
};
use sp_runtime::transaction_validity::ValidTransaction;
use pallet_donate::pallet::Pallet;
use pallet_donate::types::{Call, Origin, Recipe};

fn passed_proposal() -> Pallet {
    let mut p = Pallet::new(*b"py/donat", 77);
    assert!(p.summon(Origin::Signed((1, 0)), vec![1], 10).is_ok());
    assert_eq!(p.submit_proposal(Origin::Signed((7, 0)), 0, 30, vec![5]), Ok(()));
    assert_eq!(p.submit_vote(Origin::Signed((1, 0)), 0, 0, 0, 1000), Ok(()));
    p
}

fn fresh(triger_id: u64, action_id: u64) -> Recipe {
    Recipe {
        triger_id,
        action_id,
        enable: true,
        times: 0,
        max_times: 0,
        done: false,
        last_triger_timestamp: 0,
        force_stop: false,
    }
}

#[test]
fn sync_starts_tracking_live_recipes_from_zero() {
    let p = passed_proposal();
    let mut tasks = BTreeMap::new();
    p.sync_recipe_tasks(&mut tasks);
    assert_eq!(tasks.len(), 1);
    assert_eq!(tasks[&0], fresh(0, 0));
}

#[test]
fn sync_keeps_tracked_counts_and_unknown_ids() {
    let p = passed_proposal();
    let mut tasks = BTreeMap::new();
    let counted = Recipe { times: 4, ..fresh(0, 0) };
    tasks.insert(0, counted);
    tasks.insert(50, fresh(3, 3));
    p.sync_recipe_tasks(&mut tasks);
    assert_eq!(tasks.len(), 2);
    assert_eq!(tasks[&0], counted);
    assert_eq!(tasks[&50], fresh(3, 3));
}

#[test]
fn sync_twice_changes_nothing() {
    let p = passed_proposal();
    let mut tasks = BTreeMap::new();
    tasks.insert(9, fresh(1, 1));
    p.sync_recipe_tasks(&mut tasks);
    let once = tasks.clone();
    p.sync_recipe_tasks(&mut tasks);
    assert_eq!(tasks, once);
}

#[test]
fn sync_drops_done_recipes() {
    let mut p = passed_proposal();
    let mut tasks = BTreeMap::new();
    p.sync_recipe_tasks(&mut tasks);
    assert_eq!(p.set_recipe_done_unsigned(Origin::Unsigned, 1, 0), Ok(()));
    p.sync_recipe_tasks(&mut tasks);
    assert!(tasks.is_empty());
}

#[test]
fn fire_waits_for_the_timer() {
    let p = passed_proposal();
    let mut tasks = BTreeMap::new();
    p.sync_recipe_tasks(&mut tasks);
    // Timer(1000, 60, 12), fired 0 times: due once 1000 < now.
    let running = p.fire_due_recipes(&mut tasks, 1000);
    assert!(running.is_empty());
    assert_eq!(tasks[&0].times, 0);
    let running = p.fire_due_recipes(&mut tasks, 1001);
    assert_eq!(running, vec![(0, Recipe { times: 1, ..fresh(0, 0) })]);
    assert_eq!(tasks[&0].times, 1);
    // Now due once 1000 + 60 < now.
    assert!(p.fire_due_recipes(&mut tasks, 1060).is_empty());
    assert_eq!(p.fire_due_recipes(&mut tasks, 1061).len(), 1);
    assert_eq!(tasks[&0].times, 2);
}

#[test]
fn fire_skips_recipes_without_a_trigger_and_orders_by_id() {
    let p = passed_proposal();
    let mut tasks = BTreeMap::new();
    tasks.insert(30, fresh(0, 0));
    tasks.insert(10, fresh(0, 0));
    tasks.insert(20, fresh(99, 0));
    let running = p.fire_due_recipes(&mut tasks, 5000);
    let ids: Vec<u64> = running.iter().map(|(id, _)| *id).collect();
    assert_eq!(ids, vec![10, 30]);
    assert_eq!(tasks[&20].times, 0);
}

#[test]
fn transfer_calls_follow_the_actions() {
    let p = passed_proposal();
    let running = vec![
        (0, Recipe { times: 1, ..fresh(0, 0) }),
        (4, Recipe { times: 1, ..fresh(0, 8) }),
    ];
    let planned = p.transfer_calls(&running, 12);
    assert_eq!(
        planned,
        vec![PlannedTransfer {
            recipe_id: 0,
            recipe: Recipe { times: 1, ..fresh(0, 0) },
            call: Call::TranferUnsigned {
                org_id: 0,
                proposal_id: 0,
                times: 1,
                block_number: 12,
                reciver: (7, 0),
                amount: 30,
            },
        }]
    );
}

#[test]
fn follow_up_marks_done_at_max_times() {
    let planned = PlannedTransfer {
        recipe_id: 3,
        recipe: Recipe { times: 1, ..fresh(0, 0) },
        call: Call::CauseError,
    };
    assert_eq!(
        follow_up_calls(&planned, true, 8, 2000),
        vec![
            Call::UpdateRecipeTrigerTimesUnsigned {
                block_number: 8,
                recipe_id: 3,
                times: 1,
                timestamp: 2000
            },
            Call::SetRecipeDoneUnsigned { block_number: 8, recipe_id: 3 },
        ]
    );
    let below = PlannedTransfer {
        recipe_id: 3,
        recipe: Recipe { times: 1, max_times: 12, ..fresh(0, 0) },
        call: Call::CauseError,
    };
    assert_eq!(follow_up_calls(&below, true, 8, 2000).len(), 1);
    assert!(follow_up_calls(&planned, false, 8, 2000).is_empty());
}

#[test]
fn round_without_the_lock_does_nothing() {
    let p = passed_proposal();
    let mut tasks = BTreeMap::new();
    tasks.insert(0, fresh(0, 0));
    let (after, planned) = p.plan_offchain_round(tasks.clone(), false, 5000, 3);
    assert_eq!(after, tasks);
    assert!(planned.is_empty());
}

#[test]
fn round_with_the_lock_plans_the_payout() {
    let p = passed_proposal();
    let (after, planned) = p.plan_offchain_round(BTreeMap::new(), true, 5000, 3);
    assert_eq!(after[&0], Recipe { times: 1, ..fresh(0, 0) });
    assert_eq!(planned.len(), 1);
    assert_eq!(
        planned[0].call,
        Call::TranferUnsigned {
            org_id: 0,
            proposal_id: 0,
            times: 1,
            block_number: 3,
            reciver: (7, 0),
            amount: 30
        }
    );
}

fn built_by_sp_runtime(priority: u64, name: &[u8]) -> ValidTransaction {
    ValidTransaction::with_tag_prefix("ocw-difttt")
        .priority(priority)
        .and_provides([&name.to_vec()])
        .longevity(3)
        .propagate(true)
        .build()
        .unwrap()
}

fn as_sp_runtime(v: ValidUnsigned) -> ValidTransaction {
    ValidTransaction {
        priority: v.priority,
        requires: v.requires,
        provides: v.provides,
        longevity: v.longevity,
        propagate: v.propagate,
    }
}

#[test]
fn validate_unsigned_accepts_the_three_unsigned_calls() {
    let p = passed_proposal();
    let transfer = Call::TranferUnsigned {
        org_id: 0,
        proposal_id: 0,
        times: 1,
        block_number: 3,
        reciver: (7, 0),
        amount: 30,
    };
    assert_eq!(
        as_sp_runtime(p.validate_unsigned(&transfer).unwrap()),
        built_by_sp_runtime(77, b"tranfer_unsigned")
    );
    let update = Call::UpdateRecipeTrigerTimesUnsigned {
        block_number: 1,
        recipe_id: 0,
        times: 1,
        timestamp: 1,
    };
    assert_eq!(
        as_sp_runtime(p.validate_unsigned(&update).unwrap()),
        built_by_sp_runtime(77, b"update_recipe_triger_times_unsigned")
    );
    let done = Call::SetRecipeDoneUnsigned { block_number: 1, recipe_id: 0 };
    assert_eq!(
        as_sp_runtime(p.validate_unsigned(&done).unwrap()),
        built_by_sp_runtime(77, b"set_recipe_done_unsigned")
    );
    assert_eq!(
        p.validate_unsigned(&Call::DoSomething { something: 1 }),
        Err(InvalidTransaction::Call)
    );
    assert_eq!(
        p.validate_unsigned(&Call::Donate { org_id: 0, amount: 1 }),
        Err(InvalidTransaction::Call)
    );
}

#[test]
fn provided_tag_bytes() {
    assert_eq!(tag_prefix_bytes(), b"ocw-difttt".to_vec());
    assert_eq!(tag_bytes(UnsignedTag::TranferUnsigned), b"tranfer_unsigned".to_vec());
    assert_eq!(
        tag_bytes(UnsignedTag::UpdateRecipeTrigerTimesUnsigned),
        b"update_recipe_triger_times_unsigned".to_vec()
    );
    assert_eq!(
        tag_bytes(UnsignedTag::SetRecipeDoneUnsigned),
        b"set_recipe_done_unsigned".to_vec()
    );
    let p = passed_proposal();
    let v = p
        .validate_unsigned(&Call::SetRecipeDoneUnsigned { block_number: 1, recipe_id: 0 })
        .unwrap();
    // Compact length 10 (40), the prefix, compact length 24 (96), the name.
    let mut expected = vec![40u8];
    expected.extend_from_slice(b"ocw-difttt");
    expected.push(96);
    expected.extend_from_slice(b"set_recipe_done_unsigned");
    assert_eq!(v.provides, vec![expected]);
    assert!(v.requires.is_empty());
}
