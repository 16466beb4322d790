# paymoncoin

The ledger logic of PaymonCoin, a cryptocurrency whose transactions form a DAG
(a "tangle"), written in Verus: each function states what it does in `requires`
and `ensures`, and Verus proves it.

Layout:

- `src/pm`: the PM binary codec (a position/limit byte buffer, its serializer and
  deserializer, sizes), with read-after-write laws.
- `src/transaction`: hashes, addresses, transactions, milestones, decimal text,
  token contracts and the queue that runs contract calls.
- `src/model`: transaction checks, tips, requests, ledger diffs, the decisions
  of tip selection (its random choices stay outside the proofs), configuration.
- `src/storage`: balances, snapshots and the file of initial balances, hash sets
  and keyed lists, store helpers.
- `src/network`: the interface's request checks and dispatch, node and neighbor
  message framing, the packet reader, the RPC messages.
- `src/consensus`: round arithmetic and message signing of the agreement protocol.
- `tests/`: tests on concrete values.
- `app/`: the front end (configuration and snapshot files, the HTTP interface).

Outside crates are reached through small trusted wrappers whose contracts state
what the crates' sources and documentation promise.
