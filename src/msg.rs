//! Request and response shapes of the bridge.
use vstd::prelude::*;
use crate::state::BridgeRecord;

verus! {

/// An address as the host saw it: `Ok` with its validated form, or `Err` with
/// the text that the host refused.
pub type CheckedAddr = Result<String, String>;

/// The text of an address, whether or not the host accepted it.
pub open spec fn addr_text(a: CheckedAddr) -> Seq<char> {
    match a {
        Ok(s) => s@,
        Err(s) => s@,
    }
}

/// The list an optional list stands for; none is empty.
pub open spec fn opt_list<T>(o: Option<Vec<T>>) -> Seq<T> {
    match o {
        Some(v) => v@,
        None => Seq::empty(),
    }
}

/// Every address of the list was accepted.
pub open spec fn all_valid(v: Seq<CheckedAddr>) -> bool {
    forall|i: int| 0 <= i < v.len() ==> (#[trigger] v[i]) is Ok
}

/// The texts of a list of addresses.
pub open spec fn addr_texts(v: Seq<CheckedAddr>) -> Seq<Seq<char>> {
    v.map_values(|a: CheckedAddr| addr_text(a))
}

/// `address` is the text of the first address of `v` that the host refused.
pub open spec fn first_invalid(v: Seq<CheckedAddr>, address: Seq<char>) -> bool {
    exists|i: int|
        0 <= i < v.len() && (#[trigger] v[i]) is Err && addr_text(v[i]) == address && forall|j: int|
            0 <= j < i ==> (#[trigger] v[j]) is Ok
}

/// Sets up the admin and operator lists.
#[derive(Debug)]
pub struct InstantiateMsg {
    /// Initial admin addresses
    pub admins: Vec<CheckedAddr>,
    /// Initial operator addresses
    pub operators: Vec<CheckedAddr>,
}

/// A source collection and the destination collection it is bridged to.
#[derive(Debug)]
pub struct CollectionMapping {
    pub source: CheckedAddr,
    pub destination: CheckedAddr,
}

/// The operations that change the bridge.
#[allow(inconsistent_fields)]
#[derive(Debug)]
pub enum ExecuteMsg {
    /// Update the contract's admins
    UpdateAdmins { add: Option<Vec<CheckedAddr>>, remove: Option<Vec<CheckedAddr>> },
    /// Update the contract's operators
    UpdateOperators { add: Option<Vec<CheckedAddr>>, remove: Option<Vec<CheckedAddr>> },
    /// Set the global pause flag, or the override of one collection
    UpdatePause { pause: bool, collection: Option<CheckedAddr> },
    /// Remove, then add, collection mappings
    UpdateCollectionMapping {
        add: Option<Vec<CollectionMapping>>,
        remove: Option<Vec<CollectionMapping>>,
    },
    /// Give an escrowed token back to a recipient on the source chain
    ReleaseNft {
        recipient: CheckedAddr,
        sn_collection: String,
        sn_address: String,
        token_id: String,
        recipient_is_contract: bool,
    },
    /// A collection contract hands a token to the escrow
    ReceiveNft { sender: CheckedAddr, token_id: String, msg: Vec<u8> },
}

/// The read-only requests.
#[derive(Debug)]
pub enum QueryMsg {
    /// Lists the contract's admins
    Admins {},
    /// Lists the contract's operators
    Operators {},
    /// The destination of each source collection
    CollectionMappings { source_contracts: Vec<CheckedAddr> },
    /// One page of the crossings of a token, newest first
    HistoryByToken {
        collection_address: CheckedAddr,
        token_id: String,
        start_after: Option<u64>,
        limit: Option<u8>,
    },
}

/// Contract configuration
#[derive(Debug)]
pub struct ContractInfoResponse {}

/// Shows the contract's admins
#[derive(Debug)]
pub struct AdminsResponse {
    pub admins: Vec<String>,
}

/// Shows the contract's operators
#[derive(Debug)]
pub struct OperatorsResponse {
    pub operators: Vec<String>,
}

/// The destinations of the queried source collections, in the order asked
#[derive(Debug)]
pub struct CollectionMappingResponse {
    pub destinations: Vec<String>,
}

/// One page of the bridge records of a token
#[derive(Debug, PartialEq, Eq)]
pub struct HistoryResponse {
    pub history: Vec<BridgeRecordResponse>,
}

/// A bridge record as it is shown to readers.
#[derive(Debug, PartialEq, Eq)]
pub struct BridgeRecordResponse {
    /// true if the token has been released from the bridge
    pub is_released: bool,
    /// id of bridged token
    pub token_id: String,
    /// the source-chain account of the crossing
    pub source_address: Option<String>,
    /// the source-chain collection
    pub source_collection: String,
    /// the destination-chain account of the crossing
    pub destination_address: Option<String>,
    /// the destination-chain collection
    pub destination_collection: String,
    /// the block height of the crossing
    pub block_height: u64,
    /// the block time of the crossing, in seconds since the epoch
    pub block_time: u64,
}

impl From<BridgeRecord> for BridgeRecordResponse {
    fn from(record: BridgeRecord) -> (r: Self) {
        BridgeRecordResponse {
            is_released: record.is_released,
            token_id: record.token_id,
            source_address: record.source_address,
            source_collection: record.source_collection,
            destination_address: record.destination_address,
            destination_collection: record.destination_collection,
            block_height: record.block_height,
            block_time: record.block_time,
        }
    }
}

impl vstd::std_specs::convert::FromSpecImpl<BridgeRecord> for BridgeRecordResponse {
    open spec fn obeys_from_spec() -> bool {
        true
    }

    open spec fn from_spec(record: BridgeRecord) -> Self {
        response_of(record)
    }
}

/// A record as it is shown to readers: the same fields.
pub open spec fn response_of(record: BridgeRecord) -> BridgeRecordResponse {
    BridgeRecordResponse {
        is_released: record.is_released,
        token_id: record.token_id,
        source_address: record.source_address,
        source_collection: record.source_collection,
        destination_address: record.destination_address,
        destination_collection: record.destination_collection,
        block_height: record.block_height,
        block_time: record.block_time,
    }
}

/// Parameters of a migration
#[derive(Debug)]
pub struct MigrateMsg {
    pub foo: String,
}

} // verus!
