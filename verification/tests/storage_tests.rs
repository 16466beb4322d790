use paymoncoin::model::transaction_validator::TransactionError;
use paymoncoin::storage::balances::Balances;
use paymoncoin::storage::hashes::Hashes;
use paymoncoin::storage::hive::{
    closest_next_milestone_lookup, hashes_from_bytes, height_step, trunk_needs_height, CFType, HeightStep,
    MilestoneLookup,
};
use paymoncoin::transaction::transaction::{TransactionObject, TransactionType};
use paymoncoin::storage::keyed::KeyedList;
use paymoncoin::storage::snapshot::Snapshot;
use paymoncoin::storage::snapshot_file::{parse_snapshot_line, SnapshotError};
use paymoncoin::transaction::transaction::{Address};
use paymoncoin::transaction::transaction as tx;

fn addr(b: u8) -> Address {
    Address([b; 21])
}

fn hash_of(b: u8) -> tx::Hash {
    tx::Hash([b; 32])
}

fn balances(entries: Vec<(Address, i64)>) -> Balances {
    Balances::from_entries(entries).unwrap()
}

#[test]
fn balances_keep_one_entry_per_address() {
    assert!(Balances::from_entries(vec![(addr(1), 5), (addr(1), 6)]).is_none());
    let mut b = balances(vec![(addr(1), 5), (addr(2), -3)]);
    assert_eq!(b.len(), 2);
    assert_eq!(b.get(&addr(1)), Some(5));
    assert_eq!(b.get(&addr(3)), None);
    assert_eq!(b.insert(addr(1), 9), Some(5));
    assert_eq!(b.insert(addr(3), 1), None);
    assert_eq!(b.len(), 3);
    assert_eq!(b.sum(), 7);
    assert_eq!(b.remove(&addr(2)), Some(-3));
    assert_eq!(b.remove(&addr(2)), None);
    assert_eq!(b.sum(), 10);
}

#[test]
fn snapshot_apply_keeps_total() {
    let mut s = Snapshot { state: balances(vec![(addr(1), 100), (addr(2), 50)]), index: 3 };
    let patch = balances(vec![(addr(1), -30), (addr(4), 30)]);
    assert_eq!(s.apply(&patch, 4), Ok(()));
    assert_eq!(s.index, 4);
    assert_eq!(s.get_balance(&addr(1)), Some(70));
    assert_eq!(s.get_balance(&addr(2)), Some(50));
    assert_eq!(s.get_balance(&addr(4)), Some(30));
    assert_eq!(s.state.sum(), 150);
}

#[test]
fn snapshot_refuses_unbalanced_patch() {
    let mut s = Snapshot { state: balances(vec![(addr(1), 100)]), index: 3 };
    let patch = balances(vec![(addr(1), -30)]);
    assert_eq!(s.apply(&patch, 4), Err(TransactionError::InvalidData));
    assert_eq!(s.index, 3);
    assert_eq!(s.get_balance(&addr(1)), Some(100));
}

#[test]
fn patched_diff_adds_snapshot_balances() {
    let s = Snapshot { state: balances(vec![(addr(1), 100)]), index: 0 };
    let diff = balances(vec![(addr(1), -40), (addr(2), 40)]);
    let p = s.patched_diff(diff);
    assert_eq!(p.get(&addr(1)), Some(60));
    assert_eq!(p.get(&addr(2)), Some(40));
}

#[test]
fn consistency_drops_zero_balances() {
    let mut state = balances(vec![(addr(1), 0), (addr(2), 5)]);
    assert!(Snapshot::is_consistent(&mut state));
    assert_eq!(state.get(&addr(1)), None);
    assert_eq!(state.get(&addr(2)), Some(5));
    let mut bad = balances(vec![(addr(1), -1), (addr(2), 5)]);
    assert!(!Snapshot::is_consistent(&mut bad));
    assert_eq!(bad.get(&addr(2)), Some(5));
}

#[test]
fn hash_sets() {
    let mut s = Hashes::new();
    assert!(s.insert(hash_of(1)));
    assert!(!s.insert(hash_of(1)));
    assert!(s.insert(hash_of(2)));
    assert!(s.contains(&hash_of(2)));
    assert_eq!(s.len(), 2);
    assert!(s.remove(&hash_of(1)));
    assert!(!s.contains(&hash_of(1)));
    assert_eq!(s.len(), 1);
}

#[test]
fn keyed_lists() {
    let mut k: KeyedList<i32> = KeyedList::new();
    assert_eq!(k.insert(hash_of(1), 3), None);
    assert_eq!(k.insert(hash_of(1), 4), Some(3));
    assert_eq!(k.get(&hash_of(1)), Some(4));
    assert!(k.contains_key(&hash_of(1)));
    assert_eq!(k.len(), 1);
    assert!(k.remove(&hash_of(1)));
    assert!(!k.contains_key(&hash_of(1)));
}

#[test]
fn stored_hash_lists() {
    let mut bytes = vec![1u8; 32];
    bytes.extend_from_slice(&[2u8; 32]);
    let hs = hashes_from_bytes(&bytes).unwrap();
    assert_eq!(hs, vec![hash_of(1), hash_of(2)]);
    assert!(hashes_from_bytes(&bytes[..40]).is_none());
    assert!(hashes_from_bytes(&[]).is_none());
}

#[test]
fn column_families() {
    assert_eq!(CFType::Transaction.index(), 0);
    assert_eq!(CFType::Contracts.index(), 7);
    assert_eq!(CFType::TransactionMetadata.name(), "transaction-metadata");
    assert_eq!(CFType::StateDiff.name(), "state_diff");
}

#[test]
fn milestone_lookup_start() {
    assert_eq!(closest_next_milestone_lookup(0, false, 0), MilestoneLookup::First);
    assert_eq!(closest_next_milestone_lookup(5, false, 0), MilestoneLookup::From(5));
    assert_eq!(closest_next_milestone_lookup(0, true, 0), MilestoneLookup::From(0));
}

#[test]
fn initial_balances_file() {
    let a = format!("P{}", "11".repeat(21));
    let b = format!("P{}", "22".repeat(21));
    let lines = vec![format!("{} 600000000", a), format!("{} 400000000", b)];
    let state = Snapshot::init_initial_state(&lines).unwrap();
    assert_eq!(state.get(&addr(0x11)), Some(600000000));
    assert_eq!(state.get(&addr(0x22)), Some(400000000));

    let short = vec![format!("{} 5", a)];
    assert_eq!(Snapshot::init_initial_state(&short).err(), Some(SnapshotError::WrongTotal));
    let twice = vec![format!("{} 5", a), format!("{} 5", a)];
    assert_eq!(Snapshot::init_initial_state(&twice).err(), Some(SnapshotError::DuplicateAddress));
    let overflow = vec![format!("{} 9223372036854775807", a), format!("{} 1", b)];
    assert_eq!(Snapshot::init_initial_state(&overflow).err(), Some(SnapshotError::TotalOverflow));
    assert_eq!(parse_snapshot_line(b"P11 x").err(), Some(SnapshotError::InvalidBalance));
    assert_eq!(parse_snapshot_line(b"P11 5").err(), Some(SnapshotError::InvalidAddress));
    assert_eq!(parse_snapshot_line(b"P11").err(), Some(SnapshotError::MissingBalance));
    let long = format!("P{} -7", "33".repeat(23));
    let (addr33, v) = parse_snapshot_line(long.as_bytes()).unwrap();
    assert_eq!(addr33, addr(0x33));
    assert_eq!(v, -7);
}

#[test]
fn heights_along_the_trunk_chain() {
    let null = TransactionObject::from_hash(tx::Hash([0; 32]));
    let mut t = TransactionObject::from_hash(hash_of(1));
    t.data_type = TransactionType::Full;
    assert!(trunk_needs_height(&t));
    assert!(!trunk_needs_height(&null));
    assert_eq!(height_step(&null, &t), HeightStep::SetHeight(1));
    let mut trunk = t.clone();
    trunk.height = 4;
    let mut child = TransactionObject::from_hash(hash_of(2));
    child.data_type = TransactionType::Full;
    assert_eq!(height_step(&trunk, &child), HeightStep::SetHeight(5));
    child.height = 9;
    assert_eq!(height_step(&trunk, &child), HeightStep::Stop);
    t.height = 1;
    assert_eq!(height_step(&null, &t), HeightStep::Keep);
}
