use paymoncoin::storage::hive::{generate_address, generate_address_from_private_key};
use paymoncoin::transaction::milestone::{get_index, rescan_delay, Milestone, MilestoneObject, Validity};
use paymoncoin::transaction::transaction::{
    hash_null, meets_weight_magnitude, Address, AddressError, HashError, Transaction,
    TransactionObject, TransactionType,
};
use paymoncoin::pm::serializable::SerializedBuffer;
use paymoncoin::storage::balances::Balances;
use paymoncoin::storage::snapshot::Snapshot;
use paymoncoin::transaction::transaction as tx;

fn hash_of(first: u8) -> tx::Hash {
    let mut b = [0u8; 32];
    b[0] = first;
    tx::Hash(b)
}

#[test]
fn sha3_of_empty_input() {
    let h = tx::Hash::sha3_256(b"");
    let expected =
        tx::Hash::from_str("a7ffc6f8bf1ed76651c14756a061d662f580ff4de43b49fa82d80a4b80f8434a").unwrap();
    assert_eq!(h, expected);
}

#[test]
fn hash_text_parsing() {
    let h = tx::Hash::from_str("00ff000000000000000000000000000000000000000000000000000000000001").unwrap();
    assert_eq!(h.0[1], 0xff);
    assert_eq!(h.0[31], 1);
    assert_eq!(tx::Hash::from_str("00ff"), Err(HashError::InvalidHash));
    assert_eq!(
        tx::Hash::from_str("zz00000000000000000000000000000000000000000000000000000000000000"),
        Err(HashError::InvalidHash)
    );
}

#[test]
fn null_hash_and_address() {
    assert!(hash_null().is_null());
    assert!(!hash_of(1).is_null());
    assert!(Address::default().is_null());
}

#[test]
fn leading_zero_bits_of_hash() {
    let mut b = [0u8; 32];
    b[1] = 0x0f;
    assert_eq!(tx::Hash(b).trailing_zeros(), 12);
    assert_eq!(hash_null().trailing_zeros(), 32);
    assert!(meets_weight_magnitude(&b, 12));
    assert!(!meets_weight_magnitude(&b, 13));
}

#[test]
fn address_parsing_and_checksum() {
    let a = Address::from_str("P111111111111111111111111111111111111111111").unwrap();
    assert_eq!(a.0, [0x11u8; 21]);
    assert_eq!(Address::from_str("Q111111111111111111111111111111111111111111"), Err(AddressError::InvalidAddress));
    assert_eq!(Address::from_str("P11"), Err(AddressError::InvalidAddress));
    assert_eq!(Address::from_str(""), Err(AddressError::InvalidAddress));
    // 20 bytes of 0x11: ten count once and ten twice, 30 * 0x11 = 510, 510 % 256 = 254.
    assert_eq!(Address::calculate_checksum(&[0x11u8; 20]), 254);
    let mut bytes = [0x11u8; 21];
    bytes[20] = 254;
    assert!(Address(bytes).verify());
    assert!(!a.verify());
}

#[test]
fn address_from_secret_key() {
    let mut sk = [0u8; 32];
    sk[31] = 1;
    let (address, pk) = generate_address_from_private_key(&sk).unwrap();
    // The public key of the secret key one is the generator point.
    let g = [
        0x02u8, 0x79, 0xBE, 0x66, 0x7E, 0xF9, 0xDC, 0xBB, 0xAC, 0x55, 0xA0, 0x62, 0x95, 0xCE, 0x87,
        0x0B, 0x07, 0x02, 0x9B, 0xFC, 0xDB, 0x2D, 0xCE, 0x28, 0xD9, 0x59, 0xF2, 0x81, 0x5B, 0x16,
        0xF8, 0x17, 0x98,
    ];
    assert_eq!(pk, g);
    assert!(address.verify());
    assert_eq!(Address::from_public_key(&pk).unwrap(), address);
    assert!(generate_address_from_private_key(&[0u8; 32]).is_none());
}

#[test]
fn fresh_addresses_verify() {
    if let Some((address, sk, pk)) = generate_address() {
        assert!(address.verify());
        let (again, pk2) = generate_address_from_private_key(&sk).unwrap();
        assert_eq!(again, address);
        assert_eq!(pk2, pk);
    }
}

#[test]
fn transaction_from_hash_is_empty() {
    let h = hash_of(0x80);
    let t = TransactionObject::from_hash(h);
    assert_eq!(t.hash, h);
    assert_eq!(t.value, 0);
    assert_eq!(t.data_type, TransactionType::HashOnly);
    let tx = Transaction::from_object(t, SerializedBuffer::new(false));
    assert_eq!(tx.weight_magnitude, 0);
    assert_eq!(tx.get_hash(), h);
    assert!(!tx.is_solid());
}

#[test]
fn approvers_are_loaded_once() {
    let mut tx = Transaction::from_object(TransactionObject::new(), SerializedBuffer::new(false));
    let first = tx.get_approvers(Some(vec![hash_of(1), hash_of(2)]));
    assert_eq!(first.len(), 2);
    let second = tx.get_approvers(Some(vec![hash_of(3)]));
    assert_eq!(second.len(), 2);
    assert!(second.contains(&hash_of(1)));
    assert!(!second.contains(&hash_of(3)));
}

#[test]
fn milestone_index_from_tag() {
    let mut tag = [0u8; 32];
    tag[28] = 0;
    tag[29] = 1;
    tag[30] = 2;
    tag[31] = 3;
    assert_eq!(get_index(&tx::Hash(tag)), 0x010203);
}

#[test]
fn rescan_waits_for_what_is_left() {
    assert_eq!(rescan_delay(1000), 4000);
    assert_eq!(rescan_delay(4999), 1);
    assert_eq!(rescan_delay(6000), 1);
    assert_eq!(rescan_delay(0), 5000);
}

fn empty_snapshot() -> Snapshot {
    Snapshot { state: Balances::new(), index: 0 }
}

#[test]
fn milestone_validity() {
    let coordinator = Address::from_str("P111111111111111111111111111111111111111111").unwrap();
    let ms = Milestone::new(coordinator, empty_snapshot(), false, 20, 0, false);
    let h = hash_of(9);
    let (v, m) = ms.validate_milestone(h, 0x200000, false, None);
    assert_eq!(v, Validity::Invalid);
    assert!(m.is_none());
    let (v, m) = ms.validate_milestone(h, 5, true, None);
    assert_eq!(v, Validity::Valid);
    assert!(m.is_none());
    let (v, _) = ms.validate_milestone(h, 5, false, None);
    assert_eq!(v, Validity::Invalid);
    let mut sk = [0u8; 32];
    sk[31] = 1;
    let (_, pk) = generate_address_from_private_key(&sk).unwrap();
    let (v, _) = ms.validate_milestone(h, 5, false, Some((TransactionType::Full, pk)));
    assert_eq!(v, Validity::Invalid);

    let testnet = Milestone::new(coordinator, empty_snapshot(), true, 20, 0, true);
    let (v, m) = testnet.validate_milestone(h, 5, false, Some((TransactionType::Full, pk)));
    assert_eq!(v, Validity::Valid);
    let m = m.unwrap();
    assert_eq!(m.index, 5);
    assert_eq!(m.hash, h);
    let (v, _) = testnet.validate_milestone(h, 5, false, Some((TransactionType::HashOnly, pk)));
    assert_eq!(v, Validity::Invalid);
}

#[test]
fn milestone_signed_by_coordinator_is_valid() {
    let mut sk = [0u8; 32];
    sk[31] = 7;
    let (coordinator, pk) = generate_address_from_private_key(&sk).unwrap();
    let ms = Milestone::new(coordinator, empty_snapshot(), false, 20, 0, false);
    let (v, m) = ms.validate_milestone(hash_of(4), 11, false, Some((TransactionType::Full, pk)));
    assert_eq!(v, Validity::Valid);
    assert_eq!(m.unwrap().index, 11);
}

#[test]
fn latest_milestone_never_goes_down() {
    let coordinator = Address::default();
    let mut ms = Milestone::new(coordinator, empty_snapshot(), false, 20, 0, false);
    let h = hash_of(1);
    assert!(ms.begin_candidate(h));
    assert!(!ms.begin_candidate(h));
    ms.record_candidate(&h, Validity::Valid, Some(MilestoneObject::new(7, h)));
    assert_eq!(ms.latest_milestone_index, 7);
    assert_eq!(ms.latest_milestone, h);
    ms.record_candidate(&hash_of(2), Validity::Valid, Some(MilestoneObject::new(3, hash_of(2))));
    assert_eq!(ms.latest_milestone_index, 7);
    assert_eq!(ms.latest_milestone, h);
    let h3 = hash_of(3);
    assert!(ms.begin_candidate(h3));
    ms.record_candidate(&h3, Validity::Incomplete, None);
    assert!(ms.begin_candidate(h3));

    assert!(ms.needs_solid_update());
    let m = MilestoneObject::new(5, hash_of(5));
    assert!(ms.solid_candidate(&m, 7));
    assert!(ms.accepts_solid(&m, true));
    assert!(!ms.accepts_solid(&m, false));
    ms.advance_solid(&m, true);
    assert_eq!(ms.latest_solid_subhive_milestone_index, 5);
    let m2 = MilestoneObject::new(6, hash_of(6));
    ms.advance_solid(&m2, false);
    assert_eq!(ms.latest_solid_subhive_milestone_index, 5);
    ms.shutdown();
    assert!(!ms.solid_candidate(&m2, 7));
}

#[test]
fn address_and_hash_texts() {
    let a = Address([0xab; 21]);
    let t = a.to_text();
    assert_eq!(t, format!("P{}", "AB".repeat(21)));
    assert_eq!(Address::from_str(&t).unwrap(), a);
    let h = hash_of(0x5c);
    assert_eq!(h.to_hex(), format!("5c{}", "00".repeat(31)));
    assert_eq!(tx::Hash::from_str(&h.to_hex()).unwrap(), h);
}

#[test]
fn signed_transactions_validate() {
    let mut sk = [0u8; 32];
    sk[31] = 9;
    let (address, pk) = generate_address_from_private_key(&sk).unwrap();
    let mut o = TransactionObject::new();
    o.address = address;
    o.value = 5;
    o.timestamp = 1000;
    o.data_type = TransactionType::Full;
    o.signature_pubkey = pk;
    let mut t = Transaction::from_object(o, SerializedBuffer::new(false));
    let h = t.calculate_hash(&[]);
    t.object.hash = h;
    let sig = t.calculate_signature(&sk, &pk).unwrap();
    t.object.signature = sig;
    assert!(paymoncoin::transaction::transaction::validate_transaction(&mut t, 0, &[]));
    t.object.signature[10] ^= 1;
    assert!(!paymoncoin::transaction::transaction::validate_transaction(&mut t, 0, &[]));
}

#[test]
fn transaction_bytes_in_base64() {
    let mut t = Transaction::from_object(TransactionObject::new(), SerializedBuffer::new_with_size(3));
    assert_eq!(t.get_base64_data(&[1, 2, 3]), "AQID");
}

#[test]
fn base64_pads_short_groups() {
    let cases: [(&[u8], &str); 4] = [(&[0xff], "/w=="), (&[0xfb, 0xff], "+/8="), (&[1, 2, 3, 4], "AQIDBA=="), (&[0x4d, 0x61, 0x6e, 0x4d, 0x61, 0x6e], "TWFuTWFu")];
    for (bytes, text) in cases.iter() {
        let mut t = Transaction::from_object(TransactionObject::new(), SerializedBuffer::new_with_size(bytes.len()));
        assert_eq!(t.get_base64_data(bytes), *text);
    }
}
