use frame_support::traits::ConstU32;
use frame_support::{BoundedVec, PalletId};
use sp_runtime::traits::AccountIdConversion;
use sp_runtime::AccountId32;
use pallet_donate::pallet::Pallet;
use pallet_donate::types::{
    AccountId, Action, DispatchError, Error, Event, Member, Origin, Proposal, ProposalStatue, Recipe,
    Transfer, Triger,
};

const PALLET_ID: [u8; 8] = *b"py/donat";

/// The 32-byte account whose little-endian value is `n`, as the mock's
/// numbered accounts.
fn acct(n: u64) -> AccountId {
    (n as u128, 0)
}

fn new_test_ext() -> Pallet {
    Pallet::new(PALLET_ID, 1 << 20)
}

fn name(v: Vec<u8>) -> BoundedVec<u8, ConstU32<128>> {
    v.try_into().unwrap()
}

fn details(v: Vec<u8>) -> BoundedVec<u8, ConstU32<2048>> {
    v.try_into().unwrap()
}

#[test]
fn it_works_for_default_value() {
    let mut p = new_test_ext();
    assert_eq!(p.do_something(Origin::Signed(acct(1)), 42), Ok(()));
    assert_eq!(p.something(), Some(42));
}

#[test]
fn correct_error_for_none_value() {
    let mut p = new_test_ext();
    assert_eq!(
        p.cause_error(Origin::Signed(acct(1))),
        Err(DispatchError::Module(Error::NoneValue))
    );
    assert_eq!(p.something(), None);
    assert!(p.events().is_empty());
}

#[test]
fn test_summon() {
    let mut p = new_test_ext();
    assert!(p.summon(Origin::Signed(acct(1)), vec![1, 2, 3], 1).is_ok());

    let org = p.map_org(0).unwrap();
    assert_eq!(org.name, name(vec![1, 2, 3]));
    assert_eq!(org.member_count, 1);
    assert_eq!(org.total_shares, 1);
    assert_eq!(org.treasury_id, p.org_account(0));

    assert_eq!(p.members(0, acct(1)).unwrap(), Member { shares: 1 });
    assert_eq!(p.member_orgs(acct(1), 0).is_some(), true);
}

#[test]
fn test_donate() {
    let mut p = new_test_ext();
    assert_eq!(
        p.donate(Origin::Signed(acct(1)), 0, 3),
        Err(DispatchError::Module(Error::OrgIdMustExist))
    );
    assert!(p.map_org(0).is_none());

    assert!(p.summon(Origin::Signed(acct(1)), vec![1, 2, 3], 1).is_ok());
    assert!(p.donate(Origin::Signed(acct(2)), 0, 3).is_ok());

    let org = p.map_org(0).unwrap();
    assert_eq!(org.name, name(vec![1, 2, 3]));
    assert_eq!(org.member_count, 2);
    assert_eq!(org.total_shares, 4);
    assert_eq!(p.members(0, acct(1)).unwrap(), Member { shares: 1 });
    assert_eq!(p.members(0, acct(2)).unwrap(), Member { shares: 3 });
    assert_eq!(p.member_orgs(acct(1), 0).is_some(), true);
    assert_eq!(p.member_orgs(acct(2), 0).is_some(), true);

    assert!(p.donate(Origin::Signed(acct(2)), 0, 3).is_ok());
    let org = p.map_org(0).unwrap();
    assert_eq!(org.name, name(vec![1, 2, 3]));
    assert_eq!(org.member_count, 2);
    assert_eq!(org.total_shares, 7);
    assert_eq!(p.members(0, acct(2)).unwrap(), Member { shares: 6 });
}

#[test]
fn test_submit_proposal() {
    let mut p = new_test_ext();
    assert_eq!(
        p.submit_proposal(Origin::Signed(acct(2)), 0, 3, vec![1, 2, 3]),
        Err(DispatchError::Module(Error::OrgIdMustExist))
    );

    assert!(p.summon(Origin::Signed(acct(1)), vec![1, 2, 3], 1).is_ok());
    assert_eq!(p.submit_proposal(Origin::Signed(acct(2)), 0, 3, vec![1, 2, 3]), Ok(()));

    assert_eq!(
        p.proposals(0, 0).unwrap(),
        &Proposal {
            proposer: acct(2),
            votes: Default::default(),
            approve_votes: 0,
            deny_votes: 0,
            details: details(vec![1, 2, 3]),
            org_id: 0,
            recipe_id: Default::default(),
            statue: ProposalStatue::Processing,
            payment_requested: 3,
            payment_frequency: 12,
        }
    );
}

#[test]
fn test_submit_vote() {
    let mut p = new_test_ext();
    assert_eq!(
        p.submit_vote(Origin::Signed(acct(2)), 0, 0, 0, 0),
        Err(DispatchError::Module(Error::OrgIdMustExist))
    );

    assert!(p.summon(Origin::Signed(acct(1)), vec![1, 2, 3], 1).is_ok());
    assert_eq!(
        p.submit_vote(Origin::Signed(acct(2)), 0, 0, 0, 0),
        Err(DispatchError::Module(Error::ProposalIdMustExist))
    );

    assert_eq!(p.submit_proposal(Origin::Signed(acct(2)), 0, 3, vec![1, 2, 3]), Ok(()));
    assert_eq!(
        p.submit_vote(Origin::Signed(acct(2)), 0, 0, 0, 0),
        Err(DispatchError::Module(Error::AccountMustInOrg))
    );

    assert!(p.donate(Origin::Signed(acct(2)), 0, 3).is_ok());
    assert!(p.donate(Origin::Signed(acct(3)), 0, 3).is_ok());
    assert!(p.donate(Origin::Signed(acct(4)), 0, 3).is_ok());
    assert!(p.donate(Origin::Signed(acct(5)), 0, 3).is_ok());

    assert_eq!(p.submit_vote(Origin::Signed(acct(2)), 0, 0, 0, 0), Ok(()));
    assert_eq!(p.submit_vote(Origin::Signed(acct(3)), 0, 0, 0, 0), Ok(()));
    assert_eq!(p.submit_vote(Origin::Signed(acct(4)), 0, 0, 0, 0), Ok(()));
    assert_eq!(
        p.proposals(0, 0).unwrap(),
        &Proposal {
            proposer: acct(2),
            votes: 3,
            approve_votes: 3,
            deny_votes: 0,
            details: details(vec![1, 2, 3]),
            org_id: 0,
            recipe_id: Default::default(),
            statue: ProposalStatue::Transfering,
            payment_requested: 3,
            payment_frequency: 12,
        }
    );

    assert_eq!(
        p.submit_vote(Origin::Signed(acct(5)), 0, 0, 0, 0),
        Err(DispatchError::Module(Error::ProposalMustInProcessing))
    );
}

#[test]
fn org_account_is_the_pallet_sub_account() {
    let p = new_test_ext();
    for org_id in [0u64, 5, 0x1_2345_6789] {
        let account: AccountId32 = PalletId(PALLET_ID).into_sub_account_truncating(org_id);
        let bytes: [u8; 32] = account.into();
        let mut low = [0u8; 16];
        let mut high = [0u8; 16];
        low.copy_from_slice(&bytes[..16]);
        high.copy_from_slice(&bytes[16..]);
        assert_eq!(p.org_account(org_id), (u128::from_le_bytes(low), u128::from_le_bytes(high)));
    }
    // b"modl", b"py/donat", then the organisation id's bytes, then zeros.
    let mut seed = [0u8; 16];
    seed[..12].copy_from_slice(b"modlpy/donat");
    seed[12] = 5;
    assert_eq!(p.org_account(5), (u128::from_le_bytes(seed), 0));
    assert_eq!(p.org_account(0x1_0000_0007).1, 1);
    assert_ne!(p.org_account(0), p.org_account(7));
}

#[test]
fn summon_hands_out_ids_in_sequence_and_asks_for_the_transfer() {
    let mut p = new_test_ext();
    let treasury = p.org_account(0);
    assert_eq!(
        p.summon(Origin::Signed(acct(9)), vec![7], 50),
        Ok(Transfer { from: acct(9), to: treasury, amount: 50 })
    );
    assert_eq!(p.next_org_id(), Some(1));
    assert!(p.summon(Origin::Signed(acct(8)), vec![], 5).is_ok());
    assert_eq!(p.next_org_id(), Some(2));
    assert_eq!(p.map_org(1).unwrap().total_shares, 5);
    assert_eq!(p.members(1, acct(8)), Some(Member { shares: 5 }));
    assert_eq!(p.events()[0], Event::Summoned(acct(9), vec![7], 50));
    assert_eq!(p.events()[1], Event::Summoned(acct(8), vec![], 5));
}

#[test]
fn summon_name_of_128_bytes_is_accepted() {
    let mut p = new_test_ext();
    assert!(p.summon(Origin::Signed(acct(1)), vec![9; 128], 1).is_ok());
    assert_eq!(p.map_org(0).unwrap().name.len(), 128);
}

#[test]
fn calls_refuse_the_wrong_origin() {
    let mut p = new_test_ext();
    assert_eq!(p.do_something(Origin::Unsigned, 1), Err(DispatchError::BadOrigin));
    assert_eq!(p.cause_error(Origin::Root), Err(DispatchError::BadOrigin));
    assert_eq!(p.summon(Origin::Unsigned, vec![1], 1), Err(DispatchError::BadOrigin));
    assert_eq!(p.donate(Origin::Root, 0, 1), Err(DispatchError::BadOrigin));
    assert_eq!(
        p.submit_proposal(Origin::Unsigned, 0, 1, vec![]),
        Err(DispatchError::BadOrigin)
    );
    assert_eq!(p.submit_vote(Origin::Unsigned, 0, 0, 0, 0), Err(DispatchError::BadOrigin));
    assert_eq!(p.stop_proposal_transfer(Origin::Unsigned, 0, 0), Err(DispatchError::BadOrigin));
    assert_eq!(p.stop_proposal_transfer(Origin::Signed(acct(3)), 0, 0), Ok(()));
    assert_eq!(
        p.set_recipe_done_unsigned(Origin::Signed(acct(1)), 0, 0),
        Err(DispatchError::BadOrigin)
    );
    assert_eq!(
        p.update_recipe_triger_times_unsigned(Origin::Root, 0, 0, 1, 1),
        Err(DispatchError::BadOrigin)
    );
    assert_eq!(
        p.tranfer_unsigned(Origin::Signed(acct(1)), 0, 0, 1, 0, acct(2), 3),
        Err(DispatchError::BadOrigin)
    );
    assert!(p.events().is_empty());
    assert_eq!(p.something(), None);
    assert_eq!(p.next_org_id(), None);
}

#[test]
fn cause_error_adds_one_and_stops_at_the_maximum() {
    let mut p = new_test_ext();
    assert_eq!(p.do_something(Origin::Signed(acct(1)), 41), Ok(()));
    assert_eq!(p.cause_error(Origin::Signed(acct(2))), Ok(()));
    assert_eq!(p.something(), Some(42));
    assert_eq!(p.do_something(Origin::Signed(acct(1)), u32::MAX), Ok(()));
    assert_eq!(
        p.cause_error(Origin::Signed(acct(2))),
        Err(DispatchError::Module(Error::StorageOverflow))
    );
    assert_eq!(p.something(), Some(u32::MAX));
    assert_eq!(p.events().len(), 2);
    assert_eq!(p.events()[0], Event::SomethingStored(41, acct(1)));
}

#[test]
fn donation_by_member_keeps_count_and_reports_event() {
    let mut p = new_test_ext();
    assert!(p.summon(Origin::Signed(acct(1)), vec![1], 10).is_ok());
    let treasury = p.org_account(0);
    assert_eq!(
        p.donate(Origin::Signed(acct(1)), 0, 5),
        Ok(Transfer { from: acct(1), to: treasury, amount: 5 })
    );
    let org = p.map_org(0).unwrap();
    assert_eq!(org.member_count, 1);
    assert_eq!(org.total_shares, 15);
    assert_eq!(p.members(0, acct(1)), Some(Member { shares: 15 }));
    assert_eq!(p.events().last(), Some(&Event::Donated(acct(1), 0, 5)));
}

fn passed_proposal() -> Pallet {
    let mut p = new_test_ext();
    assert!(p.summon(Origin::Signed(acct(1)), vec![1], 10).is_ok());
    assert_eq!(p.submit_proposal(Origin::Signed(acct(7)), 0, 30, vec![5]), Ok(()));
    // One member: the threshold is 1 / 3 * 2 = 0, so the first vote passes.
    assert_eq!(p.submit_vote(Origin::Signed(acct(1)), 0, 0, 1, 1000), Ok(()));
    p
}

#[test]
fn passing_vote_creates_the_payout_recipe() {
    let p = passed_proposal();
    let prop = p.proposals(0, 0).unwrap();
    assert_eq!(prop.votes, 1);
    assert_eq!(prop.approve_votes, 0);
    assert_eq!(prop.deny_votes, 1);
    assert_eq!(prop.statue, ProposalStatue::Transfering);
    assert_eq!(p.map_triger(0), Some(Triger::Timer(1000, 60, 12)));
    assert_eq!(p.map_action(0), Some(Action::TranferToken(0, 0, acct(7), 30)));
    assert_eq!(
        p.map_recipe(0),
        Some(Recipe {
            triger_id: 0,
            action_id: 0,
            enable: true,
            times: 0,
            max_times: 12,
            done: false,
            last_triger_timestamp: 0,
            force_stop: false,
        })
    );
    assert!(p.triger_owner(acct(7), 0).is_some());
    assert!(p.action_owner(acct(7), 0).is_some());
    assert!(p.recipe_owner(acct(7), 0).is_some());
    assert!(p.recipe_owner(acct(1), 0).is_none());
    assert_eq!(p.next_triger_id(), Some(1));
    assert_eq!(p.next_action_id(), Some(1));
    assert_eq!(p.next_recipe_id(), Some(1));
    assert_eq!(p.next_proposal_id(0), Some(1));
    let n = p.events().len();
    assert_eq!(p.events()[n - 2], Event::Transfering(0, 0, 30));
    assert_eq!(p.events()[n - 1], Event::VoteSubmited(acct(1), 0, 0));
}

#[test]
fn vote_below_threshold_only_counts() {
    let mut p = new_test_ext();
    assert!(p.summon(Origin::Signed(acct(1)), vec![1], 10).is_ok());
    for who in 2..=6u64 {
        assert!(p.donate(Origin::Signed(acct(who)), 0, 1).is_ok());
    }
    // Six members: the threshold is 6 / 3 * 2 = 4.
    assert_eq!(p.submit_proposal(Origin::Signed(acct(1)), 0, 5, vec![]), Ok(()));
    assert_eq!(p.submit_vote(Origin::Signed(acct(2)), 0, 0, 7, 0), Ok(()));
    let prop = p.proposals(0, 0).unwrap();
    assert_eq!(prop.votes, 1);
    assert_eq!(prop.approve_votes, 0);
    assert_eq!(prop.deny_votes, 0);
    assert_eq!(prop.statue, ProposalStatue::Processing);
    assert_eq!(p.next_recipe_id(), None);
    assert_eq!(p.events().last(), Some(&Event::VoteSubmited(acct(2), 0, 0)));
}

#[test]
fn unsigned_recipe_updates() {
    let mut p = passed_proposal();
    assert_eq!(
        p.set_recipe_done_unsigned(Origin::Unsigned, 5, 9),
        Err(DispatchError::Module(Error::RecipeIdNotExist))
    );
    assert_eq!(
        p.update_recipe_triger_times_unsigned(Origin::Unsigned, 5, 9, 1, 1),
        Err(DispatchError::Module(Error::RecipeIdNotExist))
    );
    assert_eq!(p.update_recipe_triger_times_unsigned(Origin::Unsigned, 5, 0, 3, 777), Ok(()));
    let r = p.map_recipe(0).unwrap();
    assert_eq!(r.times, 3);
    assert_eq!(r.last_triger_timestamp, 777);
    assert!(!r.done);
    assert_eq!(p.events().last(), Some(&Event::RecipeTrigerTimesUpdated(0, 3, 777)));
    assert_eq!(p.set_recipe_done_unsigned(Origin::Unsigned, 5, 0), Ok(()));
    assert!(p.map_recipe(0).unwrap().done);
    assert_eq!(p.events().last(), Some(&Event::RecipeDone(0)));
}

#[test]
fn tranfer_unsigned_pays_from_the_treasury() {
    let mut p = new_test_ext();
    let treasury = p.org_account(4);
    assert_eq!(
        p.tranfer_unsigned(Origin::Unsigned, 4, 2, 3, 10, acct(8), 99),
        Ok(Transfer { from: treasury, to: acct(8), amount: 99 })
    );
    assert_eq!(
        p.events().last(),
        Some(&Event::TransferFrequency(4, 2, 3, treasury, acct(8), 99))
    );
}

#[test]
fn a_passed_proposal_gets_one_payout_only() {
    let mut p = passed_proposal();
    assert!(p.donate(Origin::Signed(acct(2)), 0, 1).is_ok());
    assert_eq!(
        p.submit_vote(Origin::Signed(acct(2)), 0, 0, 0, 2000),
        Err(DispatchError::Module(Error::ProposalMustInProcessing))
    );
    assert_eq!(
        p.submit_vote(Origin::Signed(acct(1)), 0, 0, 0, 2000),
        Err(DispatchError::Module(Error::ProposalMustInProcessing))
    );
    assert_eq!(p.proposals(0, 0).unwrap().statue, ProposalStatue::Transfering);
    assert_eq!(p.next_recipe_id(), Some(1));
    assert_eq!(p.next_action_id(), Some(1));
    assert_eq!(p.next_triger_id(), Some(1));
    assert!(p.map_recipe(1).is_none());
}
