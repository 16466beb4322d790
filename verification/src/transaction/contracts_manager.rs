use vstd::prelude::*;
use crate::storage::hashes::Hashes;
use crate::transaction::contract::{
    call_applied,
    contracts_wf,
    is_json_error,
    json_as_object,
    json_get,
    spec_json_get,
    ContractAddress,
    ContractInputOutput,
    ContractOutput,
    ContractTransaction,
    ContractsStorage,
    Error,
    JsonValue,
};
use crate::transaction::transaction::{address_null, bytes_eq, Account, Address};

verus! {

/// Most calls that one execution runs.
pub const CONTRACTS_TODO_NUM: usize = 5;

/// Seconds in a day.
pub const SECS_IN_DAY: u32 = 86400;

/// Within this many seconds of midnight no call of the validator contract runs.
pub const POS_TIMEOUT_SECS: u32 = 900;

/// `chrono::Utc::now()` read with `Timelike::num_seconds_from_midnight`: the
/// seconds since the last midnight, UTC. Claimed of every outcome: a number from
/// 0 to 86399, as chrono documents; which one depends on the clock.
#[verifier::external_body]
fn seconds_since_midnight() -> (r: u32)
    ensures
        r < 86400,
{
    chrono::Timelike::num_seconds_from_midnight(&chrono::Utc::now())
}

/// The hash bytes of each queued call.
pub open spec fn queue_hashes(q: Seq<ContractTransaction>) -> Seq<Seq<u8>> {
    q.map_values(|c: ContractTransaction| c.hash.0@)
}

/// The address bytes of each listed address.
pub open spec fn address_bytes(v: Seq<Address>) -> Seq<Seq<u8>> {
    v.map_values(|a: Address| a.0@)
}

/// The position of the first queued call with hash bytes `h`.
pub open spec fn queue_position(q: Seq<ContractTransaction>, h: Seq<u8>) -> Option<int> {
    if exists|i: int|
        0 <= i < q.len() && q[i].hash.0@ == h && forall|j: int| 0 <= j < i ==> q[j].hash.0@ != h {
        Some(
            choose|i: int|
                0 <= i < q.len() && q[i].hash.0@ == h && forall|j: int|
                    0 <= j < i ==> q[j].hash.0@ != h,
        )
    } else {
        None
    }
}

/// What reading the member `input` of a queued call and calling the contract with
/// it does to the contracts.
pub open spec fn input_applied(
    before: Seq<crate::transaction::contract::ContractEntry>,
    after: Seq<crate::transaction::contract::ContractEntry>,
    caller: Account,
    address: Seq<u8>,
    input: Seq<(String, JsonValue)>,
    r: Result<ContractOutput, Error>,
) -> bool {
    match spec_json_get(input, "input"@) {
        None => is_json_error(r, "expected field 'input'"@) && after == before,
        Some(JsonValue::Object(o)) => call_applied(before, after, address, caller, o@, r),
        Some(_) => is_json_error(r, "expected object"@) && after == before,
    }
}

/// The queue of contract calls waiting to run, with the contracts they run
/// against and the addresses that applied to become validators.
pub struct ContractsManager {
    pub executed: Hashes,
    pub transactions_queue: Vec<ContractTransaction>,
    pub storage: ContractsStorage,
    pub pos_contract_address: ContractAddress,
    pub future_validators: Vec<Address>,
    pub validators_limit: usize,
}

impl ContractsManager {
    /// No call is queued twice, no address applied twice, and every contract's
    /// storage holds each key once.
    pub open spec fn wf(&self) -> bool {
        &&& queue_hashes(self.transactions_queue@).no_duplicates()
        &&& address_bytes(self.future_validators@).no_duplicates()
        &&& contracts_wf(self.storage.entries@)
        &&& self.executed.wf()
    }

    /// The addresses that applied to become validators.
    pub open spec fn validator_set(&self) -> Set<Seq<u8>> {
        address_bytes(self.future_validators@).to_set()
    }

    /// Nothing queued, no contract, no validator, a limit of zero validators; the
    /// validator contract lives at the null address.
    pub fn new() -> (r: ContractsManager)
        ensures
            r.wf(),
            r.transactions_queue@.len() == 0,
            r.storage.entries@.len() == 0,
            r.future_validators@.len() == 0,
            r.validators_limit == 0,
            r.pos_contract_address.0@ == Seq::new(21, |i: int| 0u8),
    {
        let r = ContractsManager {
            executed: Hashes::new(),
            transactions_queue: Vec::new(),
            storage: ContractsStorage::new(),
            pos_contract_address: address_null(),
            future_validators: Vec::new(),
            validators_limit: 0,
        };
        assert(queue_hashes(r.transactions_queue@) =~= Seq::<Seq<u8>>::empty());
        assert(address_bytes(r.future_validators@) =~= Seq::<Seq<u8>>::empty());
        r
    }

    fn find_queued(&self, hash: &crate::transaction::transaction::Hash) -> (r: Option<usize>)
        ensures
            match queue_position(self.transactions_queue@, hash.0@) {
                Some(i) => r == Some(i as usize),
                None => r is None,
            },
            r matches Some(i) ==> i < self.transactions_queue@.len()
                && self.transactions_queue@[i as int].hash.0@ == hash.0@,
            r is None ==> forall|j: int|
                0 <= j < self.transactions_queue@.len() ==> self.transactions_queue@[j].hash.0@ != hash.0@,
    {
        let mut i: usize = 0;
        while i < self.transactions_queue.len()
            invariant
                i <= self.transactions_queue@.len(),
                forall|j: int| 0 <= j < i ==> self.transactions_queue@[j].hash.0@ != hash.0@,
            decreases self.transactions_queue@.len() - i,
        {
            if bytes_eq(self.transactions_queue[i].hash.0.as_slice(), hash.0.as_slice()) {
                proof {
                    let q = self.transactions_queue@;
                    assert(0 <= i < q.len() && q[i as int].hash.0@ == hash.0@ && forall|j: int|
                        0 <= j < i ==> q[j].hash.0@ != hash.0@);
                    let k = choose|k: int|
                        0 <= k < q.len() && q[k].hash.0@ == hash.0@ && forall|j: int|
                            0 <= j < k ==> q[j].hash.0@ != hash.0@;
                    if k < i {
                        assert(q[k].hash.0@ != hash.0@);
                    } else if k > i {
                        assert(q[i as int].hash.0@ != hash.0@);
                    }
                }
                return Some(i);
            }
            i = i + 1;
        }
        None
    }

    /// Queues a call. A call whose hash is queued already leaves the queued one
    /// as it is and moves it to the back.
    pub fn add_contract_tx_to_queue(
        &mut self,
        value: u32,
        hash: crate::transaction::transaction::Hash,
        from: Account,
        address: ContractAddress,
        contract_input: Vec<(String, JsonValue)>,
        timestamp: u64,
    )
        requires
            old(self).wf(),
        ensures
            final(self).wf(),
            final(self).storage == old(self).storage,
            final(self).future_validators == old(self).future_validators,
            final(self).validators_limit == old(self).validators_limit,
            final(self).pos_contract_address == old(self).pos_contract_address,
            match queue_position(old(self).transactions_queue@, hash.0@) {
                Some(i) => final(self).transactions_queue@ == old(self).transactions_queue@.remove(i).push(
                    old(self).transactions_queue@[i],
                ),
                None => final(self).transactions_queue@ == old(self).transactions_queue@.push(
                    ContractTransaction { value, hash, from, address, contract_input, timestamp },
                ),
            },
    {
        let ghost q0 = self.transactions_queue@;
        match self.find_queued(&hash) {
            Some(i) => {
                let ct = self.transactions_queue.remove(i);
                self.transactions_queue.push(ct);
                proof {
                    let q1 = self.transactions_queue@;
                    assert(q1 == q0.remove(i as int).push(q0[i as int]));
                    assert forall|a: int, b: int|
                        0 <= a < b < q1.len() implies queue_hashes(q1)[a] != queue_hashes(q1)[b] by {
                        let pa = if a < i { a } else if a < q1.len() - 1 { a + 1 } else { i as int };
                        let pb = if b < i { b } else if b < q1.len() - 1 { b + 1 } else { i as int };
                        assert(q1[a] == q0[pa]);
                        assert(q1[b] == q0[pb]);
                        assert(pa != pb);
                        assert(queue_hashes(q0)[pa] != queue_hashes(q0)[pb]);
                    }
                }
            },
            None => {
                let ct = ContractTransaction { value, hash, from, address, contract_input, timestamp };
                self.transactions_queue.push(ct);
                proof {
                    let q1 = self.transactions_queue@;
                    assert forall|a: int, b: int|
                        0 <= a < b < q1.len() implies queue_hashes(q1)[a] != queue_hashes(q1)[b] by {
                        if b == q1.len() - 1 {
                            assert(q1[b].hash.0@ == hash.0@);
                            assert(q0[a].hash.0@ != hash.0@);
                        } else {
                            assert(queue_hashes(q0)[a] != queue_hashes(q0)[b]);
                        }
                    }
                }
            },
        }
    }

    /// Takes the calls with any of these hashes out of the queue; the others keep
    /// their order.
    pub fn remove_from_queue(&mut self, hashes: &[crate::transaction::transaction::Hash])
        requires
            old(self).wf(),
        ensures
            final(self).wf(),
            final(self).storage == old(self).storage,
            final(self).future_validators == old(self).future_validators,
            final(self).validators_limit == old(self).validators_limit,
            final(self).pos_contract_address == old(self).pos_contract_address,
            final(self).transactions_queue@ == old(self).transactions_queue@.filter(
                |c: ContractTransaction| !hashes@.map_values(|h: crate::transaction::transaction::Hash| h.0@).contains(c.hash.0@),
            ),
    {
        let ghost hs = hashes@.map_values(|h: crate::transaction::transaction::Hash| h.0@);
        let ghost pred = |c: ContractTransaction| !hs.contains(c.hash.0@);
        let mut old_queue: Vec<ContractTransaction> = Vec::new();
        std::mem::swap(&mut old_queue, &mut self.transactions_queue);
        let ghost q0 = old_queue@;
        assert(q0.len() == old_queue.len());
        let mut kept: Vec<ContractTransaction> = Vec::new();
        let mut k: usize = 0;
        proof {
            reveal(Seq::filter);
            assert(q0.take(0) =~= Seq::<ContractTransaction>::empty());
            assert(q0.take(0).filter(pred) =~= Seq::<ContractTransaction>::empty());
        }
        while old_queue.len() > 0
            invariant
                q0 == old(self).transactions_queue@,
                q0.len() <= usize::MAX,
                queue_hashes(q0).no_duplicates(),
                k <= q0.len(),
                old_queue@ == q0.skip(k as int),
                kept@ == q0.take(k as int).filter(pred),
                pred == (|c: ContractTransaction| !hs.contains(c.hash.0@)),
                hs == hashes@.map_values(|h: crate::transaction::transaction::Hash| h.0@),
            decreases old_queue@.len(),
        {
            let ct = old_queue.remove(0);
            proof {
                assert(ct == q0[k as int]);
                assert(q0.skip(k as int).drop_first() =~= q0.skip(k + 1));
                reveal(Seq::filter);
                assert(q0.take(k + 1).drop_last() =~= q0.take(k as int));
            }
            let mut listed = false;
            let mut j: usize = 0;
            while j < hashes.len()
                invariant
                    j <= hashes@.len(),
                    hs == hashes@.map_values(|h: crate::transaction::transaction::Hash| h.0@),
                    listed <==> exists|m: int| 0 <= m < j && hs[m] == ct.hash.0@,
                decreases hashes@.len() - j,
            {
                proof {
                    assert(hs[j as int] == hashes@[j as int].0@);
                }
                if bytes_eq(hashes[j].0.as_slice(), ct.hash.0.as_slice()) {
                    listed = true;
                }
                j = j + 1;
            }
            if !listed {
                kept.push(ct);
            }
            k = k + 1;
        }
        proof {
            assert(q0.take(k as int) =~= q0);
        }
        self.transactions_queue = kept;
        proof {
            let q1 = self.transactions_queue@;
            lemma_filter_keeps_distinct(q0, pred);
        }
    }

    /// Runs a queued call: its member `input` must be an object, with which the
    /// contract at the call's address is called.
    pub fn input(
        &mut self,
        caller: &Account,
        address: &ContractAddress,
        input: &Vec<(String, JsonValue)>,
        tx_timestamp: u64,
    ) -> (r: Result<ContractOutput, Error>)
        requires
            old(self).wf(),
        ensures
            final(self).wf(),
            input_applied(
                old(self).storage.entries@,
                final(self).storage.entries@,
                *caller,
                address.0@,
                input@,
                r,
            ),
            final(self).transactions_queue == old(self).transactions_queue,
            final(self).future_validators == old(self).future_validators,
            final(self).validators_limit == old(self).validators_limit,
            final(self).pos_contract_address == old(self).pos_contract_address,
    {
        proof {
            reveal_strlit("input");
        }
        let call_input = match json_get(input, "input") {
            Some(v) => match json_as_object(v) {
                Some(o) => o,
                None => return Err(Error::JsonParse("expected object".to_owned())),
            },
            None => return Err(Error::JsonParse("expected field 'input'".to_owned())),
        };
        self.storage.call(address, caller, call_input)
    }
}

/// Adds an address to the validator applicants unless it is one already.
fn insert_validator(v: &mut Vec<Address>, a: Address)
    requires
        address_bytes(old(v)@).no_duplicates(),
    ensures
        address_bytes(final(v)@).no_duplicates(),
        address_bytes(final(v)@).to_set() == address_bytes(old(v)@).to_set().insert(a.0@),
        final(v)@.len() <= old(v)@.len() + 1,
{
    let ghost v0 = v@;
    let mut i: usize = 0;
    while i < v.len()
        invariant
            i <= v@.len(),
            v@ == v0,
            v0 == old(v)@,
            address_bytes(v0).no_duplicates(),
            forall|j: int| 0 <= j < i ==> v@[j].0@ != a.0@,
        decreases v@.len() - i,
    {
        if bytes_eq(v[i].0.as_slice(), a.0.as_slice()) {
            proof {
                assert(address_bytes(v0)[i as int] == a.0@);
                assert(address_bytes(v0).to_set().insert(a.0@) =~= address_bytes(v0).to_set());
            }
            return;
        }
        i = i + 1;
    }
    v.push(a);
    proof {
        let b = address_bytes(v@);
        assert(b =~= address_bytes(v0).push(a.0@));
        assert forall|x: int, y: int| 0 <= x < y < b.len() implies b[x] != b[y] by {
            if y == b.len() - 1 {
                assert(v0[x].0@ != a.0@);
            } else {
                assert(address_bytes(v0)[x] != address_bytes(v0)[y]);
            }
        }
        assert(b.to_set() =~= address_bytes(v0).to_set().insert(a.0@)) by {
            assert forall|e: Seq<u8>| b.to_set().contains(e) <==> address_bytes(v0).to_set().insert(a.0@).contains(e) by {
                if b.to_set().contains(e) {
                    let k = choose|k: int| 0 <= k < b.len() && b[k] == e;
                    if k < b.len() - 1 {
                        assert(address_bytes(v0)[k] == e);
                    }
                }
                if address_bytes(v0).to_set().contains(e) {
                    let k = choose|k: int| 0 <= k < address_bytes(v0).len() && address_bytes(v0)[k] == e;
                    assert(b[k] == e);
                }
                if e == a.0@ {
                    assert(b[b.len() - 1] == e);
                }
            }
        }
    }
}

/// One queued call `ct` run against the contracts `e0` and the applicants `v0`,
/// with `secs` seconds since midnight: `e1`, `v1` and `r` are the contracts, the
/// applicants and the answer afterwards. A call of the validator contract (at
/// `pos_address`) within `POS_TIMEOUT_SECS` of midnight does not run; any other
/// call runs (see `input_applied`) and comes back when it went through, except a
/// call of the validator contract while the applicants reach `limit`; a call of
/// the validator contract that comes back makes its caller an applicant.
pub open spec fn queued_step(
    pos_address: Seq<u8>,
    limit: usize,
    e0: Seq<crate::transaction::contract::ContractEntry>,
    v0: Seq<Address>,
    ct: ContractTransaction,
    secs: u32,
    e1: Seq<crate::transaction::contract::ContractEntry>,
    v1: Seq<Address>,
    r: Option<ContractInputOutput>,
) -> bool {
    let pos = ct.address.0@ == pos_address;
    if pos && !(SECS_IN_DAY - secs > POS_TIMEOUT_SECS) {
        &&& r is None
        &&& e1 == e0
        &&& v1 == v0
    } else {
        exists|res: Result<ContractOutput, Error>|
            #[trigger] input_applied(e0, e1, ct.from, ct.address.0@, ct.contract_input@, res) && match res {
                Err(_) => r is None && v1 == v0,
                Ok(out) => if pos && v0.len() >= limit {
                    r is None && v1 == v0
                } else {
                    &&& r == Some(ContractInputOutput { input: ct, output: out })
                    &&& pos ==> address_bytes(v1).to_set() == address_bytes(v0).to_set().insert(ct.from.0.0@)
                        && v1.len() <= v0.len() + 1
                    &&& !pos ==> v1 == v0
                },
            }
    }
}

/// Step `k` of a run of the queue `q`: while fewer than `CONTRACTS_TODO_NUM`
/// calls have come back (`os[k]`), call `q[k]` runs as `queued_step` says, with
/// the clock reading `secs[k]`, and what comes back (`rs[k]`) is added; after
/// that the call is dropped and nothing changes.
pub open spec fn trace_step(
    pos_address: Seq<u8>,
    limit: usize,
    q: Seq<ContractTransaction>,
    secs: Seq<u32>,
    es: Seq<Seq<crate::transaction::contract::ContractEntry>>,
    vs: Seq<Seq<Address>>,
    rs: Seq<Option<ContractInputOutput>>,
    os: Seq<Seq<ContractInputOutput>>,
    k: int,
) -> bool {
    if os[k].len() < CONTRACTS_TODO_NUM {
        &&& secs[k] < SECS_IN_DAY
        &&& queued_step(pos_address, limit, es[k], vs[k], q[k], secs[k], es[k + 1], vs[k + 1], rs[k])
        &&& os[k + 1] == match rs[k] {
            Some(io) => os[k].push(io),
            None => os[k],
        }
    } else {
        &&& rs[k] is None
        &&& es[k + 1] == es[k]
        &&& vs[k + 1] == vs[k]
        &&& os[k + 1] == os[k]
    }
}

/// A run of the whole queue `q`, call by call in queue order: `es`, `vs` and `os`
/// are the contracts, the applicants and what has come back before each call
/// and after the last; nothing has come back before the first.
pub open spec fn run_trace(
    pos_address: Seq<u8>,
    limit: usize,
    q: Seq<ContractTransaction>,
    secs: Seq<u32>,
    es: Seq<Seq<crate::transaction::contract::ContractEntry>>,
    vs: Seq<Seq<Address>>,
    rs: Seq<Option<ContractInputOutput>>,
    os: Seq<Seq<ContractInputOutput>>,
) -> bool {
    &&& secs.len() == q.len()
    &&& rs.len() == q.len()
    &&& es.len() == q.len() + 1
    &&& vs.len() == q.len() + 1
    &&& os.len() == q.len() + 1
    &&& os[0].len() == 0
    &&& forall|k: int| 0 <= k < q.len() ==> #[trigger] trace_step(pos_address, limit, q, secs, es, vs, rs, os, k)
}

impl ContractsManager {
    /// Runs one call taken from the queue, given the seconds since midnight (read
    /// only for a call of the validator contract). A call of the validator
    /// contract within `POS_TIMEOUT_SECS` of midnight does not run. One that runs
    /// and goes through comes back with its output, except a call of the validator
    /// contract when the applicants already reach the limit; such a call makes its
    /// caller an applicant.
    pub fn run_queued(&mut self, ct: ContractTransaction, secs: u32) -> (r: Option<ContractInputOutput>)
        requires
            old(self).wf(),
            secs < SECS_IN_DAY,
        ensures
            final(self).wf(),
            final(self).transactions_queue == old(self).transactions_queue,
            final(self).validators_limit == old(self).validators_limit,
            final(self).pos_contract_address == old(self).pos_contract_address,
            queued_step(
                old(self).pos_contract_address.0@,
                old(self).validators_limit,
                old(self).storage.entries@,
                old(self).future_validators@,
                ct,
                secs,
                final(self).storage.entries@,
                final(self).future_validators@,
                r,
            ),
    {
        let pos = bytes_eq(ct.address.0.as_slice(), self.pos_contract_address.0.as_slice());
        if pos && !(SECS_IN_DAY - secs > POS_TIMEOUT_SECS) {
            return None;
        }
        let res = self.input(&ct.from, &ct.address, &ct.contract_input, ct.timestamp);
        let ghost res_g = res;
        let ghost mid = self.storage.entries@;
        match res {
            Ok(out) => {
                if pos {
                    if self.future_validators.len() < self.validators_limit {
                        insert_validator(&mut self.future_validators, ct.from.0);
                        assert(input_applied(old(self).storage.entries@, self.storage.entries@, ct.from, ct.address.0@, ct.contract_input@, res_g));
                        Some(ContractInputOutput { output: out, input: ct })
                    } else {
                        assert(input_applied(old(self).storage.entries@, self.storage.entries@, ct.from, ct.address.0@, ct.contract_input@, res_g));
                        None
                    }
                } else {
                    assert(input_applied(old(self).storage.entries@, self.storage.entries@, ct.from, ct.address.0@, ct.contract_input@, res_g));
                    Some(ContractInputOutput { output: out, input: ct })
                }
            },
            Err(_) => {
                assert(input_applied(old(self).storage.entries@, self.storage.entries@, ct.from, ct.address.0@, ct.contract_input@, res_g));
                None
            },
        }
    }
}

impl ContractsManager {
    /// Takes every call out of the queue, in order, and runs them (see
    /// `run_queued`, with the seconds since midnight read from the clock for each
    /// call of the validator contract) until `CONTRACTS_TODO_NUM` have come back;
    /// the calls after that are dropped. The answer is what came back, in queue
    /// order. Only callers of the validator contract that came back become
    /// applicants, and applicants are added only while fewer than the limit.
    pub fn execute_contracts(&mut self) -> (r: Vec<ContractInputOutput>)
        requires
            old(self).wf(),
        ensures
            final(self).wf(),
            final(self).transactions_queue@.len() == 0,
            final(self).validators_limit == old(self).validators_limit,
            final(self).pos_contract_address == old(self).pos_contract_address,
            r@.len() <= CONTRACTS_TODO_NUM,
            exists|p: Seq<int>|
                #![trigger p.len()]
                p.len() == r@.len() && (forall|i: int|
                    0 <= i < p.len() ==> 0 <= #[trigger] p[i] < old(self).transactions_queue@.len()
                        && old(self).transactions_queue@[p[i]] == r@[i].input) && (forall|i: int, j: int|
                    0 <= i < j < p.len() ==> p[i] < p[j]),
            old(self).validator_set().subset_of(final(self).validator_set()),
            forall|x: Seq<u8>|
                #[trigger] final(self).validator_set().contains(x) ==> old(self).validator_set().contains(x)
                    || exists|i: int|
                    0 <= i < r@.len() && #[trigger] r@[i].input.from.0.0@ == x && r@[i].input.address.0@
                        == old(self).pos_contract_address.0@,
            final(self).future_validators@.len() <= old(self).future_validators@.len()
                || final(self).future_validators@.len() <= old(self).validators_limit,
            exists|secs: Seq<u32>, es: Seq<Seq<crate::transaction::contract::ContractEntry>>, vs: Seq<Seq<Address>>, rs: Seq<Option<ContractInputOutput>>, os: Seq<Seq<ContractInputOutput>>|
                #[trigger] run_trace(
                    old(self).pos_contract_address.0@,
                    old(self).validators_limit,
                    old(self).transactions_queue@,
                    secs,
                    es,
                    vs,
                    rs,
                    os,
                ) && es[0] == old(self).storage.entries@ && vs[0] == old(self).future_validators@
                    && es[old(self).transactions_queue@.len() as int] == final(self).storage.entries@
                    && vs[old(self).transactions_queue@.len() as int] == final(self).future_validators@
                    && os[old(self).transactions_queue@.len() as int] == r@,
    {
        let mut queue: Vec<ContractTransaction> = Vec::new();
        std::mem::swap(&mut queue, &mut self.transactions_queue);
        proof {
            assert(queue_hashes(self.transactions_queue@) =~= Seq::<Seq<u8>>::empty());
        }
        let ghost q0 = queue@;
        assert(q0.len() == queue.len());
        let mut out: Vec<ContractInputOutput> = Vec::new();
        let ghost mut p: Seq<int> = Seq::empty();
        let ghost pos_address = old(self).pos_contract_address.0@;
        let ghost limit = old(self).validators_limit;
        let ghost mut secs_g: Seq<u32> = Seq::empty();
        let ghost mut es: Seq<Seq<crate::transaction::contract::ContractEntry>> = seq![self.storage.entries@];
        let ghost mut vs: Seq<Seq<Address>> = seq![self.future_validators@];
        let ghost mut rs: Seq<Option<ContractInputOutput>> = Seq::empty();
        let ghost mut os: Seq<Seq<ContractInputOutput>> = seq![out@];
        let mut k: usize = 0;
        while queue.len() > 0
            invariant
                self.wf(),
                self.transactions_queue@.len() == 0,
                self.validators_limit == old(self).validators_limit,
                self.pos_contract_address == old(self).pos_contract_address,
                q0 == old(self).transactions_queue@,
                q0.len() <= usize::MAX,
                k <= q0.len(),
                queue@ == q0.skip(k as int),
                out@.len() <= CONTRACTS_TODO_NUM,
                p.len() == out@.len(),
                forall|i: int| 0 <= i < p.len() ==> 0 <= #[trigger] p[i] < k && q0[p[i]] == out@[i].input,
                forall|i: int, j: int| 0 <= i < j < p.len() ==> p[i] < p[j],
                old(self).validator_set().subset_of(self.validator_set()),
                forall|x: Seq<u8>|
                    #[trigger] self.validator_set().contains(x) ==> old(self).validator_set().contains(x)
                        || exists|i: int|
                        0 <= i < out@.len() && #[trigger] out@[i].input.from.0.0@ == x
                            && out@[i].input.address.0@ == old(self).pos_contract_address.0@,
                self.future_validators@.len() <= old(self).future_validators@.len()
                    || self.future_validators@.len() <= old(self).validators_limit,
                pos_address == old(self).pos_contract_address.0@,
                limit == old(self).validators_limit,
                run_trace(pos_address, limit, q0.take(k as int), secs_g, es, vs, rs, os),
                es[0] == old(self).storage.entries@,
                vs[0] == old(self).future_validators@,
                es[k as int] == self.storage.entries@,
                vs[k as int] == self.future_validators@,
                os[k as int] == out@,
            decreases queue@.len(),
        {
            let ct = queue.remove(0);
            proof {
                assert(ct == q0[k as int]);
                assert(q0.skip(k as int).drop_first() =~= q0.skip(k + 1));
            }
            let ghost ct_g = ct;
            let ghost es0 = es;
            let ghost vs0 = vs;
            let ghost rs0 = rs;
            let ghost os0 = os;
            let ghost secs0 = secs_g;
            if out.len() < CONTRACTS_TODO_NUM {
                let pos = bytes_eq(ct.address.0.as_slice(), self.pos_contract_address.0.as_slice());
                let secs: u32 = if pos {
                    seconds_since_midnight()
                } else {
                    0
                };
                let ghost before = *self;
                let ghost out0 = out@;
                let res = self.run_queued(ct, secs);
                proof {
                    secs_g = secs_g.push(secs);
                    es = es.push(self.storage.entries@);
                    vs = vs.push(self.future_validators@);
                    rs = rs.push(res);
                }
                match res {
                    Some(io) => {
                        out.push(io);
                        proof {
                            p = p.push(k as int);
                            assert forall|i: int| 0 <= i < out0.len() implies out@[i] == out0[i] by {}
                            assert forall|x: Seq<u8>|
                                #[trigger] self.validator_set().contains(x) implies old(self).validator_set().contains(x)
                                    || exists|i: int|
                                    0 <= i < out@.len() && #[trigger] out@[i].input.from.0.0@ == x
                                        && out@[i].input.address.0@ == old(self).pos_contract_address.0@ by {
                                if before.validator_set().contains(x) {
                                    if !old(self).validator_set().contains(x) {
                                        let i = choose|i: int|
                                            0 <= i < out0.len() && #[trigger] out0[i].input.from.0.0@ == x
                                                && out0[i].input.address.0@ == old(self).pos_contract_address.0@;
                                        assert(out@[i] == out0[i]);
                                    }
                                } else {
                                    let last = out@.len() - 1;
                                    assert(out@[last].input.from.0.0@ == x);
                                }
                            }
                        }
                    },
                    None => {},
                }
                proof {
                    os = os.push(out@);
                }
            } else {
                proof {
                    secs_g = secs_g.push(0u32);
                    es = es.push(self.storage.entries@);
                    vs = vs.push(self.future_validators@);
                    rs = rs.push(None);
                    os = os.push(out@);
                }
            }
            proof {
                let qk = q0.take(k as int);
                let qk1 = q0.take(k + 1);
                assert(qk1[k as int] == ct_g);
                assert forall|j: int| 0 <= j < qk1.len() implies #[trigger] trace_step(pos_address, limit, qk1, secs_g, es, vs, rs, os, j) by {
                    if j < k {
                        assert(trace_step(pos_address, limit, qk, secs0, es0, vs0, rs0, os0, j));
                        assert(qk1[j] == qk[j]);
                        assert(es[j] == es0[j] && es[j + 1] == es0[j + 1]);
                        assert(vs[j] == vs0[j] && vs[j + 1] == vs0[j + 1]);
                        assert(os[j] == os0[j] && os[j + 1] == os0[j + 1]);
                        assert(rs[j] == rs0[j] && secs_g[j] == secs0[j]);
                    } else {
                        assert(es[j] == es0[j] && vs[j] == vs0[j] && os[j] == os0[j]);
                    }
                }
            }
            k = k + 1;
        }
        proof {
            assert(q0.skip(k as int).len() == 0);
            assert(q0.take(k as int) =~= q0);
        }
        out
    }
}

proof fn lemma_filter_members(q: Seq<ContractTransaction>, pred: spec_fn(ContractTransaction) -> bool)
    ensures
        forall|i: int| 0 <= i < q.filter(pred).len() ==> q.contains(#[trigger] q.filter(pred)[i]),
    decreases q.len(),
{
    reveal(Seq::filter);
    if q.len() > 0 {
        let p = q.drop_last();
        lemma_filter_members(p, pred);
        let f = q.filter(pred);
        let fp = p.filter(pred);
        assert forall|i: int| 0 <= i < f.len() implies q.contains(#[trigger] f[i]) by {
            if pred(q.last()) && i == f.len() - 1 {
                assert(f[i] == q[q.len() - 1]);
            } else {
                assert(f[i] == fp[i]);
                assert(p.contains(fp[i]));
                let k = choose|k: int| 0 <= k < p.len() && p[k] == fp[i];
                assert(q[k] == p[k]);
            }
        }
    }
}

proof fn lemma_filter_keeps_distinct(q: Seq<ContractTransaction>, pred: spec_fn(ContractTransaction) -> bool)
    requires
        queue_hashes(q).no_duplicates(),
    ensures
        queue_hashes(q.filter(pred)).no_duplicates(),
    decreases q.len(),
{
    reveal(Seq::filter);
    if q.len() > 0 {
        let p = q.drop_last();
        assert(queue_hashes(p).no_duplicates()) by {
            assert forall|a: int, b: int| 0 <= a < b < p.len() implies queue_hashes(p)[a] != queue_hashes(p)[b] by {
                assert(queue_hashes(q)[a] != queue_hashes(q)[b]);
            }
        }
        lemma_filter_keeps_distinct(p, pred);
        if pred(q.last()) {
            let f = q.filter(pred);
            let fp = p.filter(pred);
            assert(f == fp.push(q.last()));
            assert forall|a: int, b: int| 0 <= a < b < f.len() implies queue_hashes(f)[a] != queue_hashes(f)[b] by {
                if b == f.len() - 1 {
                    lemma_filter_members(p, pred);
                    assert(f[a] == fp[a]);
                    assert(p.contains(fp[a]));
                    let k = choose|k: int| 0 <= k < p.len() && p[k] == fp[a];
                    assert(queue_hashes(q)[k] != queue_hashes(q)[q.len() - 1]);
                } else {
                    assert(queue_hashes(fp)[a] != queue_hashes(fp)[b]);
                }
            }
        }
    }
}

} // verus!
