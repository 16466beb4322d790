use vstd::prelude::*;
use crate::transaction::transaction::{Address, TransactionObject};
use crate::transaction::contract::ContractInputOutput;

verus! {

/// Asks a node who it is.
pub struct GetNodeInfo {}

impl GetNodeInfo {
    /// Identifier of the request.
    pub const SVUID: i32 = 2;
}

/// A node's answer to `GetNodeInfo`.
pub struct NodeInfo {
    pub name: String,
}

/// Asks a node to attach a transaction to the tangle.
pub struct AttachTransaction {
    pub transaction: TransactionObject,
}

/// Asks a node to pass a transaction on.
pub struct BroadcastTransaction {
    pub transaction: TransactionObject,
}

/// Asks for two transactions to approve.
pub struct GetTransactionsToApprove {
    pub depth: u32,
    pub num_walks: u32,
    pub reference: crate::transaction::transaction::Hash,
}

/// The two transactions to approve.
pub struct TransactionsToApprove {
    pub trunk: crate::transaction::transaction::Hash,
    pub branch: crate::transaction::transaction::Hash,
}

/// Asks a neighbour for a transaction.
pub struct RequestTransaction {
    pub hash: crate::transaction::transaction::Hash,
}

/// Asks for the balances of addresses.
pub struct GetBalances {
    pub addresses: Vec<Address>,
    pub tips: Vec<crate::transaction::transaction::Hash>,
    pub threshold: u8,
}

/// The balances asked for, in the order of the addresses.
pub struct Balances {
    pub balances: Vec<u64>,
}

/// Asks whether transactions are approved by tips.
pub struct GetInclusionStates {
    pub transactions: Vec<crate::transaction::transaction::Hash>,
    pub tips: Vec<crate::transaction::transaction::Hash>,
}

/// For each transaction asked about, whether it is included.
pub struct InclusionStates {
    pub booleans: Vec<bool>,
}

/// Asks for the tips.
pub struct GetTips {}

/// The tips.
pub struct Tips {
    pub hashes: Vec<crate::transaction::transaction::Hash>,
}

/// Asks for transactions by address, tag or approvee.
pub struct FindTransactions {
    pub addresses: Vec<Address>,
    pub tags: Vec<crate::transaction::transaction::Hash>,
    pub approvees: Vec<crate::transaction::transaction::Hash>,
}

/// The transactions found.
pub struct FoundedTransactions {
    pub hashes: Vec<crate::transaction::transaction::Hash>,
}

/// Asks for the data of transactions.
pub struct GetTransactionsData {
    pub hashes: Vec<crate::transaction::transaction::Hash>,
}

/// The data of the transactions, in base64.
pub struct TransactionsData {
    pub transactions: Vec<String>,
}

/// Contract calls with their outputs, as validators exchange them.
pub struct ContractsInputOutputs {
    pub vec: Vec<ContractInputOutput>,
}

impl ContractsInputOutputs {
    /// Identifier of the serialized type.
    pub const SVUID: i32 = 0x20fcaac6;
}

/// A value the validators agree on; values are ordered by their number.
#[derive(Copy, Clone, Debug, Default, PartialEq, Eq, Structural, PartialOrd, Ord, Hash)]
pub struct ConsensusValue {
    pub value: u32,
}

impl ConsensusValue {
    /// Identifier of the serialized type.
    pub const SVUID: i32 = 0x183f2199;
}

/// What a signed message says.
#[derive(Copy, Clone, Debug)]
pub enum SignedData {
    /// A request to become a validator, with the stake put up.
    ApplyForValidator { stake: u64, address: Address },
}

/// A message with its signature.
pub struct Signed {
    pub signature: Vec<u8>,
    pub hash: crate::transaction::transaction::Hash,
    pub data: SignedData,
}

impl Signed {
    /// Identifier of the serialized type.
    pub const SVUID: i32 = -1401695489;
}

impl RequestTransaction {
    /// Identifier of the serialized type.
    pub const SVUID: i32 = 0x0a8c76de;
}

} // verus!
