use imbue_governance::disputes::{
    CompletionLog, Config, DisputeRaiser, DisputeResult, Error, Event, Pallet,
};
use imbue_governance::types::{AccountId, Origin};

fn account(tag: u8) -> AccountId {
    AccountId::new([tag; 32])
}

fn alice() -> AccountId {
    account(1)
}

fn bob() -> AccountId {
    account(2)
}

fn charlie() -> AccountId {
    account(3)
}

fn config() -> Config {
    Config {
        max_jury_size: 20,
        max_specifics: 10,
        voting_time_limit: 10,
        max_disputes_per_block: 1000,
    }
}

fn new_test_ext() -> Pallet {
    let mut engine = Pallet::new(config());
    engine.set_block_number(1);
    engine
}

fn run_to_block(engine: &mut Pallet, hooks: &mut CompletionLog, n: u32) {
    loop {
        let mut block = engine.block_number();
        if block >= n {
            break;
        }
        block = block.saturating_add(1);
        engine.set_block_number(block);
        engine.on_initialize(hooks, block);
    }
}

fn get_jury(accounts: Vec<AccountId>) -> Vec<AccountId> {
    assert!(accounts.len() <= config().max_jury_size as usize, "too many jury members");
    accounts
}

fn get_specifics(specifics: Vec<u32>) -> Vec<u32> {
    assert!(specifics.len() <= config().max_specifics as usize, "too many specific ids.");
    specifics
}

fn raise(
    engine: &mut Pallet,
    key: u32,
    raised_by: AccountId,
    jury: Vec<AccountId>,
    specifics: Vec<u32>,
) -> Result<(), Error> {
    <Pallet as DisputeRaiser>::raise_dispute(engine, key, raised_by, jury, specifics)
}

#[test]
fn raise_dispute_assert_state() {
    let mut engine = new_test_ext();
    let dispute_key = 10;
    let jury = get_jury(vec![charlie(), bob()]);
    let specifics = get_specifics(vec![0, 1]);
    assert_eq!(raise(&mut engine, dispute_key, alice(), jury, specifics), Ok(()));
    assert!(engine.disputes(dispute_key).is_some());
    assert_eq!(1, engine.disputes(dispute_key).iter().count());
}

#[test]
fn raise_dispute_assert_event() {
    let mut engine = new_test_ext();
    let dispute_key = 10;
    let jury = get_jury(vec![charlie(), bob()]);
    let specifics = get_specifics(vec![0, 1]);
    assert_eq!(raise(&mut engine, dispute_key, alice(), jury, specifics), Ok(()));
    assert_eq!(engine.events().last(), Some(&Event::DisputeRaised { dispute_key }));
}

#[test]
fn raise_dispute_assert_event_too_many_disputes() {
    let mut engine = new_test_ext();
    for i in 0..=1000 {
        let jury = get_jury(vec![charlie(), bob()]);
        let specifics = get_specifics(vec![0, 1]);
        if i != 1000 {
            assert_eq!(raise(&mut engine, i, alice(), jury, specifics), Ok(()));
            assert_eq!(engine.events().last(), Some(&Event::DisputeRaised { dispute_key: i }));
        } else {
            let events_before = engine.events().len();
            let actual_result = raise(&mut engine, i, alice(), jury, specifics);
            assert_eq!(actual_result, Err(Error::TooManyDisputesThisBlock));
            assert_eq!(engine.events().len(), events_before);
            assert!(engine.disputes(i).is_none());
            assert_eq!(engine.expiring_at(11), 1000);
        }
    }
}

#[test]
fn raise_dispute_already_exists() {
    let mut engine = new_test_ext();
    let dispute_key = 10;
    let jury = get_jury(vec![charlie(), bob()]);
    let specifics = get_specifics(vec![0, 1]);
    assert_eq!(raise(&mut engine, dispute_key, alice(), jury.clone(), specifics.clone()), Ok(()));
    let events_before = engine.events().len();
    assert_eq!(
        raise(&mut engine, dispute_key, alice(), jury, specifics),
        Err(Error::DisputeAlreadyExists)
    );
    assert_eq!(engine.events().len(), events_before);
    assert_eq!(engine.expiring_at(11), 1);
}

#[test]
fn vote_on_dispute_assert_state() {
    let mut engine = new_test_ext();
    let mut hooks = CompletionLog::new();
    let dispute_key = 10;
    let jury = get_jury(vec![charlie(), bob()]);
    let specifics = get_specifics(vec![0, 1]);
    assert_eq!(raise(&mut engine, dispute_key, alice(), jury, specifics), Ok(()));
    let dispute_before_vote = engine.disputes(dispute_key).expect("dispute should exist");
    assert_eq!(0, dispute_before_vote.votes.len());
    assert_eq!(
        engine.vote_on_dispute(&mut hooks, Origin::signed(bob()), dispute_key, true),
        Ok(())
    );
    let dispute_after_vote = engine.disputes(dispute_key).expect("dispute should exist");
    let vote = dispute_after_vote.get_vote(&bob()).unwrap();
    assert_eq!(true, vote);
    assert_eq!(1, dispute_after_vote.votes.len());
}

#[test]
fn vote_on_dispute_assert_last_event() {
    let mut engine = new_test_ext();
    let mut hooks = CompletionLog::new();
    let dispute_key = 10;
    let jury = get_jury(vec![charlie(), bob()]);
    let specifics = get_specifics(vec![0, 1]);
    assert_eq!(raise(&mut engine, dispute_key, alice(), jury, specifics), Ok(()));
    assert_eq!(
        engine.vote_on_dispute(&mut hooks, Origin::signed(bob()), dispute_key, true),
        Ok(())
    );
    assert_eq!(engine.events().last(), Some(&Event::DisputeVotedOn { who: bob() }));
}

#[test]
fn vote_on_dispute_autofinalises_on_unanimous_yes() {
    let mut engine = new_test_ext();
    let mut hooks = CompletionLog::new();
    let dispute_key = 10;
    let jury = get_jury(vec![charlie(), bob()]);
    let specifics = get_specifics(vec![0, 1]);
    assert_eq!(raise(&mut engine, dispute_key, alice(), jury, specifics), Ok(()));
    assert_eq!(
        engine.vote_on_dispute(&mut hooks, Origin::signed(bob()), dispute_key, true),
        Ok(())
    );
    assert_eq!(
        engine.vote_on_dispute(&mut hooks, Origin::signed(charlie()), dispute_key, true),
        Ok(())
    );
    assert_eq!(0, engine.disputes(dispute_key).iter().count());
    assert_eq!(hooks.calls, vec![(dispute_key, vec![0, 1], DisputeResult::Success)]);
}

#[test]
fn vote_on_dispute_autofinalises_on_unanimous_no() {
    let mut engine = new_test_ext();
    let mut hooks = CompletionLog::new();
    let dispute_key = 10;
    let jury = get_jury(vec![charlie(), bob()]);
    let specifics = get_specifics(vec![0, 1]);
    assert_eq!(raise(&mut engine, dispute_key, alice(), jury, specifics), Ok(()));
    assert_eq!(
        engine.vote_on_dispute(&mut hooks, Origin::signed(bob()), dispute_key, false),
        Ok(())
    );
    assert_eq!(
        engine.vote_on_dispute(&mut hooks, Origin::signed(charlie()), dispute_key, false),
        Ok(())
    );
    assert_eq!(0, engine.disputes(dispute_key).iter().count());
    assert_eq!(hooks.calls, vec![(dispute_key, vec![0, 1], DisputeResult::Failure)]);
}

#[test]
fn try_auto_finalise_removes_autofinalise() {
    let mut engine = new_test_ext();
    let mut hooks = CompletionLog::new();
    let dispute_key = 10;
    let jury = get_jury(vec![charlie(), bob()]);
    let specifics = get_specifics(vec![0, 1]);
    assert_eq!(raise(&mut engine, dispute_key, alice(), jury, specifics), Ok(()));
    assert_eq!(
        engine.vote_on_dispute(&mut hooks, Origin::signed(bob()), dispute_key, false),
        Ok(())
    );
    assert_eq!(
        engine.vote_on_dispute(&mut hooks, Origin::signed(charlie()), dispute_key, false),
        Ok(())
    );
    assert_eq!(0, engine.disputes(dispute_key).iter().count());
    let events_before = engine.events().len();
    assert_eq!(
        engine.try_finalise_with_result(&mut hooks, dispute_key, DisputeResult::Success),
        Err(Error::DisputeDoesNotExist)
    );
    assert_eq!(engine.events().len(), events_before);
    assert_eq!(hooks.calls.len(), 1);
}

#[test]
fn vote_on_dispute_not_jury_account() {
    let mut engine = new_test_ext();
    let mut hooks = CompletionLog::new();
    let dispute_key = 10;
    let jury = get_jury(vec![bob()]);
    let specific_ids = get_specifics(vec![0]);
    assert_eq!(raise(&mut engine, dispute_key, alice(), jury, specific_ids), Ok(()));
    assert_eq!(
        engine.vote_on_dispute(&mut hooks, Origin::signed(charlie()), dispute_key, true),
        Err(Error::NotAJuryAccount)
    );
    assert_eq!(engine.disputes(dispute_key).unwrap().votes.len(), 0);
}

#[test]
fn vote_on_dispute_dispute_doesnt_exist() {
    let mut engine = new_test_ext();
    let mut hooks = CompletionLog::new();
    let dispute_key = 10;
    let jury = get_jury(vec![bob()]);
    let specific_ids = get_specifics(vec![0]);
    assert_eq!(raise(&mut engine, dispute_key, alice(), jury, specific_ids), Ok(()));
    assert_eq!(
        engine.vote_on_dispute(&mut hooks, Origin::signed(bob()), 1, true),
        Err(Error::DisputeDoesNotExist)
    );
}

#[test]
fn extend_dispute_dispute_doesnt_exist() {
    let mut engine = new_test_ext();
    let dispute_key = 10;
    let jury = get_jury(vec![bob()]);
    let specific_ids = get_specifics(vec![0]);
    assert_eq!(raise(&mut engine, dispute_key, alice(), jury, specific_ids), Ok(()));
    assert_eq!(engine.extend_dispute(Origin::signed(bob()), 1), Err(Error::DisputeDoesNotExist));
}

#[test]
fn extend_dispute_not_a_jury_account() {
    let mut engine = new_test_ext();
    let dispute_key = 10;
    let jury = get_jury(vec![bob()]);
    let specific_ids = get_specifics(vec![0]);
    assert_eq!(raise(&mut engine, dispute_key, alice(), jury, specific_ids), Ok(()));
    assert_eq!(
        engine.extend_dispute(Origin::signed(charlie()), dispute_key),
        Err(Error::NotAJuryAccount)
    );
}

#[test]
fn extend_dispute_already_extended() {
    let mut engine = new_test_ext();
    let dispute_key = 10;
    let jury = get_jury(vec![bob()]);
    let specific_ids = get_specifics(vec![0]);
    assert_eq!(raise(&mut engine, dispute_key, alice(), jury, specific_ids), Ok(()));
    assert_eq!(engine.extend_dispute(Origin::signed(bob()), dispute_key), Ok(()));
    assert_eq!(
        engine.extend_dispute(Origin::signed(bob()), dispute_key),
        Err(Error::DisputeAlreadyExtended)
    );
}

#[test]
fn extend_dispute_works_assert_last_event() {
    let mut engine = new_test_ext();
    let dispute_key = 10;
    let jury = get_jury(vec![bob()]);
    let specific_ids = get_specifics(vec![0]);
    assert_eq!(raise(&mut engine, dispute_key, alice(), jury, specific_ids), Ok(()));
    let d = engine.disputes(dispute_key).expect("dispute should exist");
    assert!(!d.is_extended);
    assert_eq!(engine.extend_dispute(Origin::signed(bob()), 10), Ok(()));
    assert_eq!(engine.events().last(), Some(&Event::DisputeExtended { dispute_key }));
}

#[test]
fn extend_dispute_works_assert_state() {
    let mut engine = new_test_ext();
    let dispute_key = 10;
    let jury = get_jury(vec![bob()]);
    let specific_ids = get_specifics(vec![0]);
    assert_eq!(raise(&mut engine, dispute_key, alice(), jury, specific_ids), Ok(()));
    let d = engine.disputes(dispute_key).expect("dispute should exist");
    assert!(!d.is_extended);
    assert_eq!(11, d.expiration);
    assert_eq!(engine.extend_dispute(Origin::signed(bob()), 10), Ok(()));
    let d = engine.disputes(dispute_key).expect("dispute should exist");
    assert!(d.is_extended);
    assert_eq!(21, d.expiration);
    assert_eq!(engine.expiring_at(11), 0);
    assert_eq!(engine.expiring_at(21), 1);
}

#[test]
fn calculate_winner_works() {
    let mut engine = new_test_ext();
    let mut hooks = CompletionLog::new();
    let jury = get_jury(vec![alice(), bob(), charlie()]);
    assert_eq!(raise(&mut engine, 7, alice(), jury, get_specifics(vec![4])), Ok(()));
    assert_eq!(engine.disputes(7).unwrap().calculate_winner(), DisputeResult::Success);
    assert_eq!(engine.vote_on_dispute(&mut hooks, Origin::signed(alice()), 7, false), Ok(()));
    assert_eq!(engine.disputes(7).unwrap().calculate_winner(), DisputeResult::Failure);
    assert_eq!(engine.vote_on_dispute(&mut hooks, Origin::signed(bob()), 7, true), Ok(()));
    assert_eq!(engine.disputes(7).unwrap().calculate_winner(), DisputeResult::Success);
    assert_eq!(engine.disputes(7).unwrap().count_votes(true), 1);
    assert_eq!(engine.disputes(7).unwrap().count_votes(false), 1);
    assert_eq!(engine.vote_on_dispute(&mut hooks, Origin::signed(bob()), 7, false), Ok(()));
    assert_eq!(engine.disputes(7).unwrap().calculate_winner(), DisputeResult::Failure);
    assert_eq!(engine.disputes(7).unwrap().votes.len(), 2);
}

#[test]
fn e2e() {
    let mut engine = new_test_ext();
    let mut hooks = CompletionLog::new();
    let dispute_key = 10;
    let jury = get_jury(vec![charlie(), bob()]);
    let specifics = get_specifics(vec![0, 1]);
    assert_eq!(raise(&mut engine, dispute_key, alice(), jury, specifics), Ok(()));
    assert_eq!(
        engine.vote_on_dispute(&mut hooks, Origin::signed(bob()), dispute_key, true),
        Ok(())
    );
    assert_eq!(
        engine.vote_on_dispute(&mut hooks, Origin::signed(charlie()), dispute_key, true),
        Ok(())
    );
    assert_eq!(0, engine.disputes(dispute_key).iter().count());
}

#[test]
fn split_panel_at_full_turnout_stays_open() {
    let mut engine = new_test_ext();
    let mut hooks = CompletionLog::new();
    assert_eq!(raise(&mut engine, 10, alice(), vec![charlie(), bob()], vec![5]), Ok(()));
    assert_eq!(engine.vote_on_dispute(&mut hooks, Origin::signed(bob()), 10, true), Ok(()));
    assert_eq!(engine.vote_on_dispute(&mut hooks, Origin::signed(charlie()), 10, false), Ok(()));
    assert!(engine.disputes(10).is_some());
    assert!(hooks.calls.is_empty());
    assert_eq!(engine.disputes(10).unwrap().verdict(), None);
    // a juror who changes sides completes the unanimous panel
    assert_eq!(engine.vote_on_dispute(&mut hooks, Origin::signed(bob()), 10, false), Ok(()));
    assert!(engine.disputes(10).is_none());
    assert_eq!(hooks.calls, vec![(10, vec![5], DisputeResult::Failure)]);
    assert_eq!(engine.expiring_at(11), 0);
}

#[test]
fn unsigned_and_root_origins_cannot_vote_or_extend() {
    let mut engine = new_test_ext();
    let mut hooks = CompletionLog::new();
    assert_eq!(raise(&mut engine, 10, alice(), vec![bob()], vec![0]), Ok(()));
    assert_eq!(engine.vote_on_dispute(&mut hooks, Origin::root(), 10, true), Err(Error::BadOrigin));
    assert_eq!(
        engine.vote_on_dispute(&mut hooks, Origin::Unsigned, 10, true),
        Err(Error::BadOrigin)
    );
    assert_eq!(engine.extend_dispute(Origin::root(), 10), Err(Error::BadOrigin));
    assert!(engine.disputes(10).is_some());
}

#[test]
fn raise_dispute_checks_limits_after_the_key() {
    let mut engine = Pallet::new(Config {
        max_jury_size: 2,
        max_specifics: 1,
        voting_time_limit: 10,
        max_disputes_per_block: 2,
    });
    let three = vec![alice(), bob(), charlie()];
    assert_eq!(raise(&mut engine, 1, alice(), three.clone(), vec![0]), Err(Error::TooManyJurors));
    assert_eq!(
        raise(&mut engine, 1, alice(), vec![bob()], vec![0, 1]),
        Err(Error::TooManySpecifics)
    );
    assert_eq!(raise(&mut engine, 1, alice(), vec![bob(), charlie()], vec![0]), Ok(()));
    // a taken key is refused as taken whatever else is wrong with the request
    assert_eq!(raise(&mut engine, 1, alice(), three, vec![0, 1]), Err(Error::DisputeAlreadyExists));
    assert_eq!(raise(&mut engine, 2, alice(), vec![], vec![]), Ok(()));
    assert_eq!(
        raise(&mut engine, 3, alice(), vec![], vec![]),
        Err(Error::TooManyDisputesThisBlock)
    );
    engine.set_block_number(1);
    assert_eq!(raise(&mut engine, 3, alice(), vec![], vec![]), Ok(()));
    assert_eq!(engine.expiring_at(10), 2);
    assert_eq!(engine.expiring_at(11), 1);
}

#[test]
fn force_finalise_needs_the_authority() {
    let mut engine = new_test_ext();
    let mut hooks = CompletionLog::new();
    assert_eq!(raise(&mut engine, 10, alice(), vec![bob()], vec![3]), Ok(()));
    assert_eq!(raise(&mut engine, 11, alice(), vec![bob()], vec![4]), Ok(()));
    assert_eq!(
        engine.force_fail_dispute(&mut hooks, Origin::signed(bob()), 10),
        Err(Error::BadOrigin)
    );
    assert_eq!(
        engine.force_succeed_dispute(&mut hooks, Origin::root(), 12),
        Err(Error::DisputeDoesNotExist)
    );
    assert!(hooks.calls.is_empty());
    assert_eq!(engine.force_fail_dispute(&mut hooks, Origin::root(), 10), Ok(()));
    assert_eq!(engine.force_succeed_dispute(&mut hooks, Origin::root(), 11), Ok(()));
    assert!(engine.disputes(10).is_none());
    assert!(engine.disputes(11).is_none());
    assert_eq!(
        hooks.calls,
        vec![(10, vec![3], DisputeResult::Failure), (11, vec![4], DisputeResult::Success)]
    );
    let events = engine.events();
    assert_eq!(
        &events[events.len() - 4..],
        &[
            Event::DisputeCompleted { dispute_key: 10 },
            Event::DisputeForced { dispute_key: 10, result: DisputeResult::Failure },
            Event::DisputeCompleted { dispute_key: 11 },
            Event::DisputeForced { dispute_key: 11, result: DisputeResult::Success },
        ]
    );
}

#[test]
fn sweep_finalises_what_expires_by_count_of_votes() {
    let mut engine = new_test_ext();
    let mut hooks = CompletionLog::new();
    let jury = vec![alice(), bob(), charlie()];
    assert_eq!(raise(&mut engine, 1, alice(), jury.clone(), vec![0]), Ok(()));
    assert_eq!(raise(&mut engine, 2, alice(), jury.clone(), vec![1]), Ok(()));
    assert_eq!(raise(&mut engine, 3, alice(), jury.clone(), vec![2]), Ok(()));
    assert_eq!(raise(&mut engine, 4, alice(), jury, vec![3]), Ok(()));
    // 1: no votes, upheld; 2: one against, dismissed; 3: extended; 4: finalised early
    assert_eq!(engine.vote_on_dispute(&mut hooks, Origin::signed(bob()), 2, false), Ok(()));
    assert_eq!(engine.extend_dispute(Origin::signed(bob()), 3), Ok(()));
    assert_eq!(engine.force_fail_dispute(&mut hooks, Origin::root(), 4), Ok(()));
    hooks.calls.clear();
    run_to_block(&mut engine, &mut hooks, 10);
    assert!(hooks.calls.is_empty());
    let weight = {
        engine.set_block_number(11);
        engine.on_initialize(&mut hooks, 11)
    };
    assert_eq!(
        hooks.calls,
        vec![(1, vec![0], DisputeResult::Success), (2, vec![1], DisputeResult::Failure)]
    );
    assert_eq!(weight.reads, 3);
    assert_eq!(weight.writes, 3);
    assert!(engine.disputes(1).is_none());
    assert!(engine.disputes(2).is_none());
    assert!(engine.disputes(3).is_some());
    run_to_block(&mut engine, &mut hooks, 21);
    assert!(engine.disputes(3).is_none());
    assert_eq!(hooks.calls.len(), 3);
    assert_eq!(hooks.calls[2], (3, vec![2], DisputeResult::Success));
}

#[test]
fn deadline_saturates_at_the_last_block() {
    let mut engine = new_test_ext();
    engine.set_block_number(u32::MAX - 3);
    assert_eq!(raise(&mut engine, 1, alice(), vec![bob()], vec![]), Ok(()));
    assert_eq!(engine.disputes(1).unwrap().expiration, u32::MAX);
    assert_eq!(engine.extend_dispute(Origin::signed(bob()), 1), Ok(()));
    assert_eq!(engine.disputes(1).unwrap().expiration, u32::MAX);
    assert_eq!(engine.expiring_at(u32::MAX), 1);
}

#[test]
fn extension_into_a_full_block_is_refused() {
    let mut engine = Pallet::new(Config {
        max_jury_size: 5,
        max_specifics: 5,
        voting_time_limit: 10,
        max_disputes_per_block: 2,
    });
    engine.set_block_number(1);
    assert_eq!(raise(&mut engine, 1, alice(), vec![bob()], vec![]), Ok(()));
    engine.set_block_number(11);
    assert_eq!(raise(&mut engine, 2, alice(), vec![bob()], vec![]), Ok(()));
    assert_eq!(raise(&mut engine, 3, alice(), vec![bob()], vec![]), Ok(()));
    // dispute 1 expires at 11, and at 21 once extended; 21 holds 2 and 3
    let events_before = engine.events().len();
    assert_eq!(
        engine.extend_dispute(Origin::signed(bob()), 1),
        Err(Error::TooManyDisputesThisBlock)
    );
    let dispute = engine.disputes(1).unwrap();
    assert!(!dispute.is_extended);
    assert_eq!(dispute.expiration, 11);
    assert_eq!(engine.expiring_at(11), 1);
    assert_eq!(engine.expiring_at(21), 2);
    assert_eq!(engine.events().len(), events_before);
    // once one of them is gone there is room
    let mut hooks = CompletionLog::new();
    assert_eq!(engine.force_fail_dispute(&mut hooks, Origin::root(), 3), Ok(()));
    assert_eq!(engine.extend_dispute(Origin::signed(bob()), 1), Ok(()));
    assert_eq!(engine.expiring_at(11), 0);
    assert_eq!(engine.expiring_at(21), 2);
}

#[test]
fn extension_by_nothing_keeps_the_place_in_a_full_block() {
    let mut engine = Pallet::new(Config {
        max_jury_size: 5,
        max_specifics: 5,
        voting_time_limit: 0,
        max_disputes_per_block: 1,
    });
    engine.set_block_number(4);
    assert_eq!(raise(&mut engine, 1, alice(), vec![bob()], vec![]), Ok(()));
    assert_eq!(
        raise(&mut engine, 2, alice(), vec![bob()], vec![]),
        Err(Error::TooManyDisputesThisBlock)
    );
    assert_eq!(engine.extend_dispute(Origin::signed(bob()), 1), Ok(()));
    assert_eq!(engine.disputes(1).unwrap().expiration, 4);
    assert!(engine.disputes(1).unwrap().is_extended);
    assert_eq!(engine.expiring_at(4), 1);
}
