use paymoncoin::model::config::{
    parse_bool, parse_i32, setting_for_key, ConfigError, Configuration, ConfigurationSettings,
};
use paymoncoin::model::ledger_validator::{apply_transfer, commit_diff, finish_update_diff, merge_missing, update_diff_start, update_diff_after_walk, update_snapshot_after_walk, DiffStep, DiffWalk};
use paymoncoin::model::tips_manager::{
    approval_depth, best_tail, cap_sum, entry_from_milestone, rating_calc, tally_tail, DepthWalk,
    EntryPoint, RatingWalk, TipsManager, RATING_CAP, walk_step, monte_carlo_step, WalkStep,
};
use paymoncoin::model::tips_view_model::TipsViewModel;
use paymoncoin::model::transaction_requester::TransactionRequester;
use paymoncoin::model::transaction_validator::{
    check_approvee, has_invalid_timestamp, quick_set_solid, update_status, TransactionError,
    TransactionValidator,
};
use paymoncoin::model::walk::TangleWalk;
use paymoncoin::pm::serializable::SerializedBuffer;
use paymoncoin::storage::balances::Balances;
use paymoncoin::storage::hashes::Hashes;
use paymoncoin::storage::hive::MilestoneLookup;
use paymoncoin::storage::keyed::KeyedList;
use paymoncoin::storage::snapshot::Snapshot;
use paymoncoin::transaction::milestone::{Milestone, MilestoneObject, Validity};
use paymoncoin::transaction::transaction::{hash_null, Address, Transaction, TransactionObject, TransactionType};
use paymoncoin::transaction::transaction as tx;

fn hash_of(b: u8) -> tx::Hash {
    tx::Hash([b; 32])
}

fn addr(b: u8) -> Address {
    Address([b; 21])
}

fn full(hash: tx::Hash, solid: bool) -> TransactionObject {
    let mut t = TransactionObject::from_hash(hash);
    t.data_type = TransactionType::Full;
    t.solid = solid;
    t
}

fn milestone_with(solid_index: u32, latest_index: u32) -> Milestone {
    let mut m = Milestone::new(Address::default(), Snapshot { state: Balances::new(), index: 0 }, false, 20, 0, false);
    m.latest_solid_subhive_milestone_index = solid_index;
    m.latest_milestone_index = latest_index;
    m.latest_solid_subhive_milestone = hash_of(0xee);
    m
}

#[test]
fn configuration_defaults() {
    let c = Configuration::defaults();
    assert_eq!(c.get_int(ConfigurationSettings::Port), Some(44832));
    assert_eq!(c.get_int(ConfigurationSettings::MaxPeers), Some(5));
    assert_eq!(c.get_bool(ConfigurationSettings::TestNet), Some(false));
    assert_eq!(c.get_string(ConfigurationSettings::ApiHost), Some("localhost".to_string()));
    assert_eq!(c.get_string(ConfigurationSettings::DBPath), Some("data".to_string()));
    let p = f32::from_bits(c.get_float(ConfigurationSettings::PRemoveRequest).unwrap());
    assert_eq!(p, 0.01);
    let l = f32::from_bits(c.get_float(ConfigurationSettings::SendLimit).unwrap());
    assert_eq!(l, -1.0);
    assert_eq!(c.get_int(ConfigurationSettings::Coordinator), None);
    assert_eq!(c.get_string(ConfigurationSettings::Port), None);
}

#[test]
fn configuration_file_lines() {
    let mut c = Configuration::defaults();
    assert_eq!(c.apply_param("port", "1234"), Ok(()));
    assert_eq!(c.get_int(ConfigurationSettings::Port), Some(1234));
    assert_eq!(c.apply_param("port", "12a"), Err(ConfigError::InvalidParam(ConfigurationSettings::Port)));
    assert_eq!(c.get_int(ConfigurationSettings::Port), Some(1234));
    assert_eq!(c.apply_param("debug", "true"), Ok(()));
    assert_eq!(c.get_bool(ConfigurationSettings::Debug), Some(true));
    assert_eq!(c.apply_param("debug", "yes"), Err(ConfigError::InvalidParam(ConfigurationSettings::Debug)));
    assert_eq!(c.apply_param("neighbors", "10.0.0.1:44832"), Ok(()));
    assert_eq!(c.get_string(ConfigurationSettings::Neighbors), Some("10.0.0.1:44832".to_string()));
    assert_eq!(c.apply_param("colour", "blue"), Ok(()));
    let mut empty = Configuration::empty();
    assert_eq!(empty.apply_param("port", "1"), Err(ConfigError::InvalidParam(ConfigurationSettings::Port)));
}

#[test]
fn number_and_flag_parsing() {
    assert_eq!(parse_i32("-2147483648"), Some(i32::MIN));
    assert_eq!(parse_i32("2147483648"), None);
    assert_eq!(parse_i32("+17"), Some(17));
    assert_eq!(parse_i32("-"), None);
    assert_eq!(parse_i32(" 1"), None);
    assert_eq!(parse_bool("false"), Some(false));
    assert_eq!(parse_bool("False"), None);
    assert_eq!(setting_for_key("max_peers"), Some(ConfigurationSettings::MaxPeers));
    assert_eq!(setting_for_key("testnet"), None);
    assert_eq!(ConfigurationSettings::CacheSizeBytes.index(), 36);
}

#[test]
fn capped_rating_sums() {
    assert_eq!(cap_sum(2, 3, 10), 5);
    assert_eq!(cap_sum(8, 3, 10), 10);
    assert_eq!(cap_sum(-8, 3, 10), 10);
    assert_eq!(cap_sum(RATING_CAP, 1, RATING_CAP), RATING_CAP);
}

#[test]
fn rating_of_a_transaction() {
    let mut ratings: KeyedList<i64> = KeyedList::new();
    ratings.insert(hash_of(1), 3);
    ratings.insert(hash_of(2), 4);
    let visited = Hashes::new();
    let r = rating_calc(false, &visited, &hash_of(9), &[hash_of(1), hash_of(2), hash_of(3)], &ratings);
    assert_eq!(r, 8);
    let mut seen = Hashes::new();
    seen.insert(hash_of(9));
    let r = rating_calc(true, &seen, &hash_of(9), &[hash_of(1)], &ratings);
    assert_eq!(r, 3);
}

#[test]
fn rating_walk_rates_approvers_first() {
    // 1 is approved by 2 and 3; 2 is approved by 3.
    let mut walk = RatingWalk::new(hash_of(1), KeyedList::new(), Hashes::new(), false);
    let visited = Hashes::new();
    let approvers_of = |h: tx::Hash| -> Vec<tx::Hash> {
        if h == hash_of(1) {
            vec![hash_of(2), hash_of(3)]
        } else if h == hash_of(2) {
            vec![hash_of(3)]
        } else {
            vec![]
        }
    };
    let mut steps = 0;
    while let Some(h) = walk.next() {
        walk.on_approvers(h, &approvers_of(h), &visited);
        steps += 1;
        assert!(steps < 100);
    }
    assert_eq!(walk.ratings.get(&hash_of(3)), Some(1));
    assert_eq!(walk.ratings.get(&hash_of(2)), Some(2));
    assert_eq!(walk.ratings.get(&hash_of(1)), Some(4));
}

#[test]
fn tip_selection_settings() {
    assert_eq!(approval_depth(20, 15), 15);
    assert_eq!(approval_depth(3, 15), 3);
    let tm = TipsManager::new(15, false, 0);
    assert_eq!(tm.get_max_depth(), 15);
    assert!(tm.can_select(&milestone_with(1, 4)));
    assert!(tm.can_select(&milestone_with(0, 0)));
    assert!(!tm.can_select(&milestone_with(0, 4)));
    let m = milestone_with(10, 12);
    match tm.entry_point(&m, Some(hash_of(5)), None, 3) {
        EntryPoint::At(h) => assert_eq!(h, hash_of(5)),
        other => panic!("unexpected entry {:?}", other),
    }
    match tm.entry_point(&m, None, None, 3) {
        EntryPoint::At(h) => assert_eq!(h, hash_of(0xee)),
        other => panic!("unexpected entry {:?}", other),
    }
    match tm.entry_point(&m, None, Some(hash_of(1)), 3) {
        EntryPoint::Find(l) => assert_eq!(l, MilestoneLookup::From(6)),
        other => panic!("unexpected entry {:?}", other),
    }
    match tm.entry_point(&m, None, Some(hash_of(1)), 30) {
        EntryPoint::Find(l) => assert_eq!(l, MilestoneLookup::First),
        other => panic!("unexpected entry {:?}", other),
    }
    assert_eq!(entry_from_milestone(&m, Some(MilestoneObject::new(6, hash_of(6)))), hash_of(6));
    assert_eq!(entry_from_milestone(&m, Some(MilestoneObject::new(6, hash_null()))), hash_of(0xee));
    assert_eq!(entry_from_milestone(&m, None), hash_of(0xee));
}

#[test]
fn walks_are_tallied() {
    let mut tally: KeyedList<i32> = KeyedList::new();
    assert_eq!(best_tail(&tally), None);
    tally_tail(&mut tally, hash_of(1));
    tally_tail(&mut tally, hash_of(2));
    tally_tail(&mut tally, hash_of(2));
    assert_eq!(tally.get(&hash_of(2)), Some(2));
    assert_eq!(best_tail(&tally), Some(hash_of(2)));
    let mut only_null: KeyedList<i32> = KeyedList::new();
    tally_tail(&mut only_null, hash_null());
    assert_eq!(best_tail(&only_null), None);
}

#[test]
fn depth_walk_finds_old_confirmed_transaction() {
    let mut t = full(hash_of(1), false);
    t.trunk_transaction = hash_of(2);
    t.branch_transaction = hash_of(3);
    assert!(!DepthWalk::tip_confirmed(&t, 5));
    let mut w = DepthWalk::new(hash_of(1), 5);
    let ok = Hashes::new();
    assert_eq!(w.next(), Some(hash_of(1)));
    assert!(!w.on_transaction(&hash_of(1), &t, &ok));
    assert_eq!(w.next(), Some(hash_of(2)));
    let mut old = full(hash_of(2), true);
    old.snapshot = 3;
    assert!(w.on_transaction(&hash_of(2), &old, &ok));
}

#[test]
fn breadth_first_walk_skips_visited() {
    let mut visited = Hashes::new();
    visited.insert(hash_of(2));
    let mut w = TangleWalk::new(visited, Some(hash_of(1)));
    w.push(hash_of(2));
    w.push(hash_of(3));
    w.push(hash_of(1));
    assert_eq!(w.next(), Some(hash_of(1)));
    assert_eq!(w.next(), Some(hash_of(3)));
    assert_eq!(w.next(), None);
}

#[test]
fn transfers_in_a_diff() {
    let mut state = Balances::new();
    assert_eq!(apply_transfer(&mut state, &addr(1), &addr(2), 10), Ok(()));
    assert_eq!(state.get(&addr(1)), Some(10));
    // The sender had no balance: it is set to the value, as the ledger always did.
    assert_eq!(state.get(&addr(2)), Some(10));
    assert_eq!(apply_transfer(&mut state, &addr(3), &addr(1), 4), Ok(()));
    assert_eq!(state.get(&addr(1)), Some(6));
    assert_eq!(state.get(&addr(3)), Some(4));
    let mut big = Balances::from_entries(vec![(addr(1), i32::MAX as i64)]).unwrap();
    assert_eq!(apply_transfer(&mut big, &addr(1), &addr(2), 1), Err(TransactionError::InvalidData));
    assert_eq!(big.get(&addr(1)), Some(i32::MAX as i64));
}

#[test]
fn diff_walk_counts_value_transfers_once() {
    let mut sk = [0u8; 32];
    sk[31] = 3;
    let (sender, pk) = paymoncoin::storage::hive::generate_address_from_private_key(&sk).unwrap();
    let mut t = full(hash_of(1), false);
    t.value = 25;
    t.address = addr(7);
    t.signature_pubkey = pk;
    t.trunk_transaction = hash_of(2);
    t.branch_transaction = hash_of(2);
    let mut w = DiffWalk::new(Hashes::new(), Some(hash_of(1)), 0);
    assert_eq!(w.next(), Some(hash_of(1)));
    assert!(matches!(w.on_transaction(&t), Ok(DiffStep::Continue)));
    assert_eq!(w.state.get(&addr(7)), Some(25));
    assert_eq!(w.state.get(&sender), Some(25));
    assert_eq!(w.next(), Some(hash_of(2)));
    let stub = TransactionObject::from_hash(hash_of(2));
    match w.on_transaction(&stub) {
        Ok(DiffStep::Request(h)) => assert_eq!(h, hash_of(2)),
        _ => panic!("the stub must be requested"),
    }
    assert_eq!(w.next(), None);
    assert_eq!(w.analyzed, 2);
}

#[test]
fn diffs_merge_and_commit() {
    let mut current = Balances::from_entries(vec![(addr(1), 5)]).unwrap();
    let diff = Balances::from_entries(vec![(addr(1), 9), (addr(2), 7)]).unwrap();
    merge_missing(&mut current, &diff);
    assert_eq!(current.get(&addr(1)), Some(5));
    assert_eq!(current.get(&addr(2)), Some(7));
    let mut target = Balances::from_entries(vec![(addr(3), 1)]).unwrap();
    commit_diff(&current, &mut target);
    assert_eq!(target.get(&addr(1)), Some(5));
    assert_eq!(target.get(&addr(3)), Some(1));
}

#[test]
fn snapshot_advances_only_when_consistent() {
    let mut s = Snapshot { state: Balances::from_entries(vec![(addr(1), 10)]).unwrap(), index: 1 };
    let bad = Balances::from_entries(vec![(addr(1), -20), (addr(2), 20)]).unwrap();
    assert!(!s.advance_if_consistent(&bad, 2));
    assert_eq!(s.index, 1);
    let good = Balances::from_entries(vec![(addr(1), -4), (addr(2), 4)]).unwrap();
    assert!(s.advance_if_consistent(&good, 2));
    assert_eq!(s.index, 2);
    assert_eq!(s.get_balance(&addr(2)), Some(4));
}

#[test]
fn tips_lists() {
    let mut tips = TipsViewModel::new();
    assert_eq!(tips.get_random_tip(), None);
    assert_eq!(tips.get_random_solid_tip(), None);
    tips.add_tip(hash_of(1));
    tips.add_tip(hash_of(2));
    tips.add_tip(hash_of(3));
    assert_eq!(tips.get_tips_count(), 3);
    tips.set_solid(&hash_of(2));
    assert_eq!(tips.get_non_solid_tips_count(), 2);
    assert_eq!(tips.get_tips(), vec![hash_of(1), hash_of(3), hash_of(2)]);
    assert_eq!(tips.get_random_solid_tip(), Some(hash_of(2)));
    let r = tips.get_random_tip().unwrap();
    assert!(r == hash_of(1) || r == hash_of(3));
    tips.remove_tip(&hash_of(2));
    assert_eq!(tips.get_tips(), vec![hash_of(1), hash_of(3)]);
    assert_eq!(tips.tip_at(1), Some(hash_of(3)));
    assert_eq!(tips.tip_at(2), None);
}

#[test]
fn tips_list_drops_oldest_when_full() {
    let mut tips = TipsViewModel::new();
    for i in 0..5001u32 {
        let mut b = [0u8; 32];
        b[..4].copy_from_slice(&i.to_le_bytes());
        b[31] = 1;
        tips.add_tip(tx::Hash(b));
    }
    assert_eq!(tips.get_non_solid_tips_count(), 5000);
    let mut first = [0u8; 32];
    first[..4].copy_from_slice(&1u32.to_le_bytes());
    first[31] = 1;
    assert_eq!(tips.tip_at(0), Some(tx::Hash(first)));
}

#[test]
fn requests() {
    let mut r = TransactionRequester::new();
    r.request_transaction(hash_of(1), false, false);
    r.request_transaction(hash_of(2), false, false);
    r.request_transaction(hash_null(), false, false);
    r.request_transaction(hash_of(3), false, true);
    assert_eq!(r.num_transactions_to_request(), 2);
    r.request_transaction(hash_of(2), true, false);
    assert_eq!(r.get_requested_transactions(), vec![hash_of(2), hash_of(1)]);
    r.request_transaction(hash_of(2), false, false);
    assert_eq!(r.get_requested_transactions(), vec![hash_of(2), hash_of(1)]);
    assert!(!r.transactions_to_request_is_full());
    assert!(r.clear_transaction_request(hash_of(2)));
    assert!(!r.clear_transaction_request(hash_of(2)));
    assert_eq!(r.get_requested_transactions(), vec![hash_of(1)]);
}

#[test]
fn polling_skips_stored_hashes() {
    let mut r = TransactionRequester::new();
    r.request_transaction(hash_of(1), false, false);
    r.request_transaction(hash_of(2), false, false);
    r.request_transaction(hash_of(3), false, false);
    let stored = |h: tx::Hash| h == hash_of(1);
    assert_eq!(r.poll_transaction_to_request(false, stored, false), Some(hash_of(2)));
    assert_eq!(r.get_requested_transactions(), vec![hash_of(3)]);
    let none_stored = |_h: tx::Hash| false;
    assert_eq!(r.poll_transaction_to_request(true, none_stored, false), Some(hash_of(3)));
    assert_eq!(r.poll_transaction_to_request(true, none_stored, false), None);
}

#[test]
fn validator_settings() {
    let mut v = TransactionValidator::new();
    assert_eq!(v.get_min_weight_magnitude(), 9);
    v.init(false, 3);
    assert_eq!(v.get_min_weight_magnitude(), 18);
    v.init(true, 3);
    assert_eq!(v.get_min_weight_magnitude(), 3);
}

#[test]
fn timestamps_are_checked() {
    let mut o = TransactionObject::new();
    o.timestamp = 5;
    let t = Transaction::from_object(o.clone(), SerializedBuffer::new(false));
    assert!(has_invalid_timestamp(&t, 10));
    assert!(!has_invalid_timestamp(&t, 1));
    o.timestamp = 7201;
    let t = Transaction::from_object(o, SerializedBuffer::new(false));
    assert!(has_invalid_timestamp(&t, 0));
}

#[test]
fn solidity_of_approved_transactions() {
    assert_eq!(check_approvee(&TransactionObject::from_hash(hash_of(4))), (false, Some(hash_of(4))));
    assert_eq!(check_approvee(&full(hash_null(), false)), (true, None));
    assert_eq!(check_approvee(&full(hash_of(4), true)), (true, None));
    assert_eq!(check_approvee(&full(hash_of(4), false)), (false, None));

    let mut t = Transaction::from_object(full(hash_of(9), false), SerializedBuffer::new(false));
    let (solid, requests) = quick_set_solid(&mut t, &TransactionObject::from_hash(hash_of(1)), &full(hash_of(2), true));
    assert!(!solid);
    assert_eq!(requests, vec![hash_of(1)]);
    let (solid, requests) = quick_set_solid(&mut t, &full(hash_of(1), true), &full(hash_of(2), true));
    assert!(solid);
    assert!(requests.is_empty());
    assert!(t.is_solid());
}

#[test]
fn stored_transaction_status() {
    let mut requester = TransactionRequester::new();
    let mut tips = TipsViewModel::new();
    requester.request_transaction(hash_of(9), true, false);
    tips.add_tip(hash_of(1));
    tips.add_tip(hash_of(2));
    let mut o = full(hash_of(9), false);
    o.trunk_transaction = hash_of(1);
    o.branch_transaction = hash_of(2);
    let mut t = Transaction::from_object(o, SerializedBuffer::new(false));
    let r = update_status(&mut requester, &mut tips, &mut t, Some(vec![]), &full(hash_of(1), true), &full(hash_of(2), false));
    assert_eq!(r.unwrap(), (false, vec![]));
    assert_eq!(tips.get_tips(), vec![hash_of(9)]);
    assert_eq!(requester.get_requested_transactions(), vec![]);
    let r = update_status(&mut requester, &mut tips, &mut t, None, &full(hash_of(1), true), &full(hash_of(2), true));
    assert_eq!(r, Err(TransactionError::InvalidData));
}

#[test]
fn configuration_lines_are_split_and_trimmed() {
    let mut c = Configuration::defaults();
    assert_eq!(c.apply_line("port=  4321 \t"), Ok(()));
    assert_eq!(c.get_int(ConfigurationSettings::Port), Some(4321));
    assert_eq!(c.apply_line("port = 1"), Ok(()));
    assert_eq!(c.get_int(ConfigurationSettings::Port), Some(4321));
    assert_eq!(c.apply_line("no equals sign"), Ok(()));
    assert_eq!(c.apply_line("api_host=\u{3000}node.example=1 "), Ok(()));
    assert_eq!(c.get_string(ConfigurationSettings::ApiHost), Some("node.example=1".to_string()));
    assert_eq!(c.apply_line("max_peers=many"), Err(ConfigError::InvalidParam(ConfigurationSettings::MaxPeers)));
}

#[test]
fn solid_transactions_propagate_in_rounds() {
    let mut p = paymoncoin::model::transaction_validator::SolidPropagation::new();
    p.add_solid_transaction(hash_of(1));
    p.add_solid_transaction(hash_of(2));
    let round = p.begin_round();
    assert_eq!(round, vec![hash_of(1), hash_of(2)]);
    p.add_solid_transaction(hash_of(3));
    p.end_round();
    let round = p.begin_round();
    assert_eq!(round, vec![hash_of(3)]);
    p.end_round();
    assert_eq!(p.begin_round(), vec![]);
    assert_eq!(paymoncoin::model::transaction_validator::propagation_action(true, false), paymoncoin::model::transaction_validator::PropagationAction::UpdateTransaction);
    assert_eq!(paymoncoin::model::transaction_validator::propagation_action(false, true), paymoncoin::model::transaction_validator::PropagationAction::Requeue);
    assert_eq!(paymoncoin::model::transaction_validator::propagation_action(false, false), paymoncoin::model::transaction_validator::PropagationAction::Nothing);
}

#[test]
fn solidity_is_the_stored_flag() {
    let t = full(hash_of(1), true);
    assert_eq!(paymoncoin::model::transaction_validator::check_solidity(Some(&t)), Ok(true));
    assert_eq!(paymoncoin::model::transaction_validator::check_solidity(None), Err(TransactionError::InvalidHash));
}

#[test]
fn walk_step_decisions() {
    assert_eq!(walk_step(false, true, false, true, false, 3), WalkStep::Stop);
    assert_eq!(walk_step(true, false, false, true, false, 3), WalkStep::Stop);
    assert_eq!(walk_step(true, true, true, true, false, 3), WalkStep::Stop);
    assert_eq!(walk_step(true, true, false, false, false, 3), WalkStep::Stop);
    assert_eq!(walk_step(true, true, false, true, true, 3), WalkStep::Stop);
    assert_eq!(walk_step(true, true, false, true, false, 0), WalkStep::StopAtTip);
    assert_eq!(walk_step(true, true, false, true, false, 1), WalkStep::MoveToApprover);
    assert_eq!(walk_step(true, true, false, true, false, 2), WalkStep::PickApprover);
}

#[test]
fn update_diff_commits_only_consistent_diffs() {
    let mut state = Balances::new();
    state.insert(addr(1), 10);
    let snapshot = Snapshot { state, index: 0 };
    let mut visited = Hashes::new();
    visited.insert(hash_of(7));

    let mut current = Balances::new();
    current.insert(addr(1), -5);
    let mut diff = Balances::new();
    diff.insert(addr(2), 3);
    let mut approved = Hashes::new();
    assert!(finish_update_diff(&snapshot, current, &mut diff, &mut approved, &visited));
    assert_eq!(diff.get(&addr(1)), Some(-5));
    assert_eq!(diff.get(&addr(2)), Some(3));
    assert!(approved.contains(&hash_of(7)));

    let mut current = Balances::new();
    current.insert(addr(1), -20);
    let mut diff = Balances::new();
    diff.insert(addr(2), 3);
    let mut approved = Hashes::new();
    assert!(!finish_update_diff(&snapshot, current, &mut diff, &mut approved, &visited));
    assert_eq!(diff.get(&addr(1)), None);
    assert_eq!(diff.get(&addr(2)), Some(3));
    assert!(!approved.contains(&hash_of(7)));
}

#[test]
fn milestone_indices_only_move_forward() {
    let mut m = milestone_with(2, 4);
    assert!(m.begin_candidate(hash_of(9)));
    assert_eq!((m.latest_milestone_index, m.latest_solid_subhive_milestone_index), (4, 2));
    m.record_candidate(&hash_of(9), Validity::Valid, Some(MilestoneObject::new(3, hash_of(9))));
    assert_eq!(m.latest_milestone_index, 4);
    m.record_candidate(&hash_of(9), Validity::Valid, Some(MilestoneObject::new(7, hash_of(9))));
    assert_eq!(m.latest_milestone_index, 7);
    m.advance_solid(&MilestoneObject::new(5, hash_of(5)), false);
    assert_eq!(m.latest_solid_subhive_milestone_index, 2);
    m.advance_solid(&MilestoneObject::new(5, hash_of(5)), true);
    assert_eq!(m.latest_solid_subhive_milestone_index, 5);
    assert!(!m.begin_candidate(hash_of(9)));
    assert_eq!((m.latest_milestone_index, m.latest_solid_subhive_milestone_index), (7, 5));
}

#[test]
fn monte_carlo_step_decisions() {
    assert_eq!(monte_carlo_step(true, true, 3, true), WalkStep::Stop);
    assert_eq!(monte_carlo_step(false, true, 0, true), WalkStep::StopAtTip);
    assert_eq!(monte_carlo_step(true, false, 1, true), WalkStep::MoveToApprover);
    assert_eq!(monte_carlo_step(false, false, 4, false), WalkStep::StopAtTip);
    assert_eq!(monte_carlo_step(false, false, 4, true), WalkStep::PickApprover);
}

#[test]
fn update_diff_early_answers() {
    assert_eq!(update_diff_start(None, true), Err(TransactionError::InvalidHash));
    assert_eq!(update_diff_start(Some(false), true), Ok(Some(false)));
    assert_eq!(update_diff_start(Some(true), true), Ok(Some(true)));
    assert_eq!(update_diff_start(Some(true), false), Ok(None));
}

#[test]
fn update_steps_after_the_walk() {
    let mut state = Balances::new();
    state.insert(addr(1), 10);
    let snapshot = Snapshot { state, index: 0 };
    let mut visited = Hashes::new();
    visited.insert(hash_of(7));
    let mut diff = Balances::new();
    let mut approved = Hashes::new();
    assert!(!update_diff_after_walk(&snapshot, None, &visited, &mut diff, &mut approved));
    assert!(!approved.contains(&hash_of(7)));
    let mut current = Balances::new();
    current.insert(addr(1), -4);
    current.insert(addr(2), 4);
    assert!(update_diff_after_walk(&snapshot, Some(current), &visited, &mut diff, &mut approved));
    assert_eq!(diff.get(&addr(2)), Some(4));
    assert!(approved.contains(&hash_of(7)));

    let mut snap = snapshot;
    assert!(!update_snapshot_after_walk(&mut snap, None, 3));
    assert_eq!(snap.index, 0);
    let mut change = Balances::new();
    change.insert(addr(1), -4);
    change.insert(addr(2), 4);
    assert!(update_snapshot_after_walk(&mut snap, Some(change), 3));
    assert_eq!(snap.index, 3);
    assert_eq!(snap.get_balance(&addr(1)), Some(6));
    assert_eq!(snap.get_balance(&addr(2)), Some(4));
    let mut bad = Balances::new();
    bad.insert(addr(1), -20);
    assert!(!update_snapshot_after_walk(&mut snap, Some(bad), 4));
    assert_eq!(snap.index, 3);
}
