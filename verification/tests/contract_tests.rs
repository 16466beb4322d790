use paymoncoin::transaction::contract::{
    json_as_u64, json_get, ContractStorage, ContractsStorage, Error, JsonNumber, JsonValue,
    KeyBuilder, Operation, Status, StorageAction, TokenContract,
};
use paymoncoin::transaction::contracts_manager::ContractsManager;
use paymoncoin::transaction::decimal::{parse_u64, u64_to_decimal};
use paymoncoin::transaction::transaction::{Account, Address, ADDRESS_SIZE};

fn s(text: &str) -> String {
    text.to_string()
}

fn object(members: Vec<(&str, JsonValue)>) -> JsonValue {
    JsonValue::Object(members.into_iter().map(|(k, v)| (k.to_string(), v)).collect())
}

fn members(members: Vec<(&str, JsonValue)>) -> Vec<(String, JsonValue)> {
    members.into_iter().map(|(k, v)| (k.to_string(), v)).collect()
}

fn token_creation(decimals: u64) -> JsonValue {
    object(vec![
        ("type", JsonValue::String(s("token"))),
        (
            "params",
            object(vec![
                ("name", JsonValue::String(s("Test Token"))),
                ("symbol", JsonValue::String(s("TEST"))),
                ("decimals", JsonValue::Number(JsonNumber::PosInt(decimals))),
            ]),
        ),
    ])
}

fn single_string_member(v: &JsonValue, key: &str) -> Option<String> {
    match v {
        JsonValue::Object(o) if o.len() == 1 && o[0].0 == key => match &o[0].1 {
            JsonValue::String(t) => Some(t.clone()),
            _ => None,
        },
        _ => None,
    }
}

fn accounts() -> (Account, Account) {
    let acc1 = Account(Address::from_str("P111111111111111111111111111111111111111111").unwrap(), 1000);
    let acc2 = Account(Address::from_str("P222222222222222222222222222222222222222222").unwrap(), 2000);
    (acc1, acc2)
}

fn creation_address() -> Address {
    // The first bytes of the creation request as serde_json writes it.
    let text = "{\"params\":{\"decimals\":6,\"name\":\"Test Token\",\"symbol\":\"TEST\"},\"type\":\"token\"}";
    let mut bytes = [0u8; 21];
    bytes.copy_from_slice(&text.as_bytes()[..ADDRESS_SIZE]);
    Address(bytes)
}

#[test]
fn contract_storage_test() {
    let (acc1, acc2) = accounts();
    let mut contracts_storage = ContractsStorage::new();
    let create_contract_json = token_creation(6);
    let contract_address = creation_address();
    contracts_storage
        .create(&acc1, contract_address, &create_contract_json)
        .expect("failed to create contract");

    let call = members(vec![("method", JsonValue::String(s("name"))), ("arguments", object(vec![]))]);
    let out = contracts_storage.call(&contract_address, &acc2, &call).expect("failed to call contract");
    assert!(out.storage_diff.len() == 0);
    assert_eq!(out.balance_diff, 0);
    assert_eq!(single_string_member(&out.output, "name"), Some(s("Test Token")));

    let call = members(vec![
        ("method", JsonValue::String(s("balance_of"))),
        (
            "arguments",
            object(vec![("address", JsonValue::String(s("P111111111111111111111111111111111111111111")))]),
        ),
    ]);
    let out = contracts_storage.call(&contract_address, &acc2, &call).expect("failed to call contract");
    assert!(out.storage_diff.len() == 0);
    assert_eq!(out.balance_diff, 0);
    assert_eq!(single_string_member(&out.output, "balance"), Some(s("1000000")));

    let call = members(vec![
        ("method", JsonValue::String(s("transfer"))),
        (
            "arguments",
            object(vec![
                ("to", JsonValue::String(s("P222222222222222222222222222222222222222222"))),
                ("amount", JsonValue::Number(JsonNumber::PosInt(500_000))),
            ]),
        ),
    ]);
    let out = contracts_storage.call(&contract_address, &acc1, &call).expect("failed to call contract");
    assert!(out.storage_diff.len() != 0);

    let sender_balance_key = KeyBuilder::new(b"balances").chain(&acc1.0 .0).finalize();
    let recipient_balance_key = KeyBuilder::new(b"balances").chain(&acc2.0 .0).finalize();
    let diff = out.storage_diff;
    match diff.get(&sender_balance_key) {
        Some(StorageAction::Update(v)) => assert_eq!(v, &500_000.to_string()),
        other => panic!("unexpected sender change {:?}", other),
    }
    match diff.get(&recipient_balance_key) {
        Some(StorageAction::Insert(v)) => assert_eq!(v, &500_000.to_string()),
        other => panic!("unexpected recipient change {:?}", other),
    }
    assert_eq!(out.balance_diff, 0);
    match &out.output {
        JsonValue::Object(o) => {
            assert_eq!(o.len(), 1);
            assert_eq!(o[0].0, "success");
            assert!(matches!(o[0].1, JsonValue::Bool(true)));
        }
        other => panic!("unexpected output {:?}", other),
    }

    let call = members(vec![
        ("method", JsonValue::String(s("transfer"))),
        (
            "arguments",
            object(vec![
                ("to", JsonValue::String(s("P222222222222222222222222222222222222222222"))),
                ("amount", JsonValue::Number(JsonNumber::PosInt(500_001))),
            ]),
        ),
    ]);
    let out = contracts_storage.call(&contract_address, &acc1, &call);
    assert!(out.is_err());
}

#[test]
fn transfer_moves_balance_between_accounts() {
    let (acc1, acc2) = accounts();
    let mut contracts_storage = ContractsStorage::new();
    let address = creation_address();
    contracts_storage.create(&acc1, address, &token_creation(6)).unwrap();
    let transfer = members(vec![
        ("method", JsonValue::String(s("transfer"))),
        (
            "arguments",
            object(vec![
                ("to", JsonValue::String(s("P222222222222222222222222222222222222222222"))),
                ("amount", JsonValue::Number(JsonNumber::PosInt(250_000))),
            ]),
        ),
    ]);
    contracts_storage.call(&address, &acc1, &transfer).unwrap();
    let recipient_key = KeyBuilder::new(b"balances").chain(&acc2.0 .0).finalize();
    let sender_key = KeyBuilder::new(b"balances").chain(&acc1.0 .0).finalize();
    assert_eq!(contracts_storage.get_value(&address, &recipient_key), Some(&s("250000")));
    assert_eq!(contracts_storage.get_value(&address, &sender_key), Some(&s("750000")));
}

#[test]
fn call_of_unknown_contract_is_refused() {
    let (acc1, _) = accounts();
    let mut contracts_storage = ContractsStorage::new();
    let call = members(vec![("method", JsonValue::String(s("name"))), ("arguments", object(vec![]))]);
    let r = contracts_storage.call(&creation_address(), &acc1, &call);
    assert!(matches!(r, Err(Error::UnknownContract)));
}

#[test]
fn creation_of_unknown_type_is_refused() {
    let (acc1, _) = accounts();
    let mut contracts_storage = ContractsStorage::new();
    let input = object(vec![("type", JsonValue::String(s("casino"))), ("params", object(vec![]))]);
    let r = contracts_storage.create(&acc1, creation_address(), &input);
    assert!(matches!(r, Err(Error::UnknownContractType)));
    let r = contracts_storage.create(&acc1, creation_address(), &JsonValue::Null);
    assert!(matches!(r, Err(Error::JsonParse(_))));
}

#[test]
fn unknown_method_is_refused() {
    let (acc1, _) = accounts();
    let mut contracts_storage = ContractsStorage::new();
    let address = creation_address();
    contracts_storage.create(&acc1, address, &token_creation(2)).unwrap();
    let call = members(vec![("method", JsonValue::String(s("burn"))), ("arguments", object(vec![]))]);
    let r = contracts_storage.call(&address, &acc1, &call);
    assert!(matches!(r, Err(Error::JsonParse(_))));
}

#[test]
fn token_creation_gives_owner_the_supply() {
    let (acc1, _) = accounts();
    let params = members(vec![
        ("name", JsonValue::String(s("Coin"))),
        ("symbol", JsonValue::String(s("C"))),
        ("decimals", JsonValue::Number(JsonNumber::PosInt(3))),
    ]);
    let (out, token) = TokenContract::create(&acc1, &params).unwrap();
    assert_eq!(out.status, Status::Succeed);
    assert_eq!(out.operation, Operation::Create);
    let key = KeyBuilder::new(b"balances").chain(&acc1.0 .0).finalize();
    match out.storage_diff.get(&key) {
        Some(StorageAction::Insert(v)) => assert_eq!(v, "1000"),
        other => panic!("unexpected change {:?}", other),
    }
    let storage: ContractStorage<String> = ContractStorage::new();
    let name = token.name(&storage);
    assert!(name.is_err());
}

#[test]
fn json_helpers_read_members() {
    let obj = members(vec![
        ("a", JsonValue::Number(JsonNumber::PosInt(7))),
        ("a", JsonValue::Number(JsonNumber::PosInt(8))),
        ("b", JsonValue::Number(JsonNumber::NegInt(-1))),
    ]);
    assert_eq!(json_as_u64(json_get(&obj, "a").unwrap()), Some(7));
    assert_eq!(json_as_u64(json_get(&obj, "b").unwrap()), None);
    assert!(json_get(&obj, "c").is_none());
}

#[test]
fn key_builder_paths() {
    let direct = KeyBuilder::new(b"balances").chain(b"alice").finalize();
    let parsed = KeyBuilder::from_str("balances[alice]").unwrap().finalize();
    assert_eq!(direct, parsed);
    assert!(KeyBuilder::from_str("[alice]").is_err());
}

#[test]
fn decimal_text_round_trip() {
    for n in [0u64, 7, 10, 500_000, u64::MAX] {
        let t = u64_to_decimal(n);
        assert_eq!(t, n.to_string());
        assert_eq!(parse_u64(&t), Some(n));
    }
    assert_eq!(parse_u64("12a"), None);
    assert_eq!(parse_u64(""), None);
    assert_eq!(parse_u64("18446744073709551616"), None);
}

fn name_call() -> Vec<(String, JsonValue)> {
    members(vec![(
        "input",
        object(vec![("method", JsonValue::String(s("name"))), ("arguments", object(vec![]))]),
    )])
}

fn tx_hash(b: u8) -> paymoncoin::transaction::transaction::Hash {
    paymoncoin::transaction::transaction::Hash([b; 32])
}

#[test]
fn contract_queue_keeps_one_call_per_hash() {
    let (acc1, _) = accounts();
    let mut m = ContractsManager::new();
    let address = creation_address();
    m.add_contract_tx_to_queue(1, tx_hash(1), acc1, address, name_call(), 10);
    m.add_contract_tx_to_queue(2, tx_hash(2), acc1, address, name_call(), 20);
    m.add_contract_tx_to_queue(3, tx_hash(1), acc1, address, vec![], 30);
    assert_eq!(m.transactions_queue.len(), 2);
    assert_eq!(m.transactions_queue[0].hash, tx_hash(2));
    assert_eq!(m.transactions_queue[1].hash, tx_hash(1));
    assert_eq!(m.transactions_queue[1].value, 1);
    m.remove_from_queue(&[tx_hash(2), tx_hash(9)]);
    assert_eq!(m.transactions_queue.len(), 1);
    assert_eq!(m.transactions_queue[0].hash, tx_hash(1));
}

#[test]
fn queued_calls_run_up_to_the_limit() {
    let (acc1, acc2) = accounts();
    let mut m = ContractsManager::new();
    let address = creation_address();
    m.storage.create(&acc1, address, &token_creation(2)).unwrap();
    for b in 1..=7u8 {
        m.add_contract_tx_to_queue(0, tx_hash(b), acc2, address, name_call(), 0);
    }
    m.add_contract_tx_to_queue(0, tx_hash(8), acc2, address, vec![], 0);
    let done = m.execute_contracts();
    assert_eq!(done.len(), 5);
    for (i, io) in done.iter().enumerate() {
        assert_eq!(io.input.hash, tx_hash(i as u8 + 1));
        assert_eq!(single_string_member(&io.output.output, "name"), Some(s("Test Token")));
    }
    assert!(m.transactions_queue.is_empty());
}

#[test]
fn validator_contract_calls() {
    let (acc1, acc2) = accounts();
    let mut m = ContractsManager::new();
    let pos = m.pos_contract_address;
    m.storage.create(&acc1, pos, &token_creation(2)).unwrap();
    let call = paymoncoin::transaction::contract::ContractTransaction {
        value: 0,
        hash: tx_hash(1),
        from: acc2,
        address: pos,
        contract_input: name_call(),
        timestamp: 0,
    };
    // Near midnight nothing runs.
    assert!(m.run_queued(call, 86_000).is_none());
    // The limit of applicants is zero: the call runs but does not come back.
    let call = paymoncoin::transaction::contract::ContractTransaction {
        value: 0,
        hash: tx_hash(1),
        from: acc2,
        address: pos,
        contract_input: name_call(),
        timestamp: 0,
    };
    assert!(m.run_queued(call, 0).is_none());
    assert!(m.future_validators.is_empty());
    m.validators_limit = 1;
    let call = paymoncoin::transaction::contract::ContractTransaction {
        value: 0,
        hash: tx_hash(1),
        from: acc2,
        address: pos,
        contract_input: name_call(),
        timestamp: 0,
    };
    assert!(m.run_queued(call, 0).is_some());
    assert_eq!(m.future_validators, vec![acc2.0]);
    let r = m.input(&acc1, &pos, &members(vec![]), 0);
    assert!(matches!(r, Err(Error::JsonParse(_))));
}

#[test]
fn storage_actions_map_their_value() {
    match StorageAction::Update(3u32).map(|x| x + 1) {
        StorageAction::Update(v) => assert_eq!(v, 4),
        other => panic!("unexpected {:?}", other),
    }
    assert_eq!(StorageAction::Remove(s("x")).take(), "x");
}
