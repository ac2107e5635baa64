//! The read-only requests.
use vstd::prelude::*;
use crate::error::ContractError;
use crate::ledger::{copy_record, page, range_history, Order};
use crate::mapping::resolve_destination;
use crate::msg::{
    addr_text, response_of, AdminsResponse, BridgeRecordResponse, CheckedAddr,
    CollectionMappingResponse, HistoryResponse, OperatorsResponse,
};
use crate::state::{ids, BridgeRecord, BridgeState, DEFAULT_LIMIT, MAX_LIMIT};
use crate::utils::copy_ids;

verus! {

/// The address is valid and a source collection with a mapping.
pub open spec fn resolves(f: Map<Seq<char>, Seq<char>>, a: CheckedAddr) -> bool {
    a is Ok && f.contains_key(addr_text(a))
}

/// The error for an address that does not resolve.
pub open spec fn unresolved_as(e: ContractError, a: CheckedAddr) -> bool {
    match a {
        Err(x) => e matches ContractError::InvalidAddress { address } && address@ == x@,
        Ok(s) => e matches ContractError::MappingNotFound { source_addr } && source_addr@ == s@,
    }
}

/// The number of records a history page holds: the limit asked, or the
/// default, and never more than the largest.
pub open spec fn page_limit(limit: Option<u8>) -> nat {
    let l = match limit {
        Some(l) => l,
        None => DEFAULT_LIMIT,
    };
    if l < MAX_LIMIT {
        l as nat
    } else {
        MAX_LIMIT as nat
    }
}

/// What `query_collection_mappings` returns for `sources`.
pub open spec fn collection_mappings_post(
    state: BridgeState,
    sources: Seq<CheckedAddr>,
    r: Result<CollectionMappingResponse, ContractError>,
) -> bool {
    let f = state.forward_map();
    &&& (r is Ok <==> forall|i: int| 0 <= i < sources.len() ==> resolves(f, #[trigger] sources[i]))
    &&& (r matches Ok(resp) ==> ids(resp.destinations@) == sources.map_values(
        |a: CheckedAddr| f[addr_text(a)],
    ))
    &&& (r matches Err(e) ==> exists|i: int|
        0 <= i < sources.len() && !resolves(f, #[trigger] sources[i]) && unresolved_as(e, sources[i])
            && forall|j: int| 0 <= j < i ==> resolves(f, #[trigger] sources[j]))
}

/// What `query_history` returns: the newest records of the token first.
pub open spec fn history_post(
    state: BridgeState,
    collection_address: CheckedAddr,
    token_id: Seq<char>,
    start_after: Option<u64>,
    limit: Option<u8>,
    r: Result<HistoryResponse, ContractError>,
) -> bool {
    match collection_address {
        Err(a) => r matches Err(ContractError::InvalidAddress { address }) && address@ == a@,
        Ok(c) => r matches Ok(resp) && resp.history@ == page(
            state.history(c@, token_id),
            start_after,
            page_limit(limit),
            Order::Descending,
        ).map_values(|x: BridgeRecord| response_of(x)),
    }
}

/// Lists the admins.
pub fn query_admins(state: &BridgeState) -> (r: AdminsResponse)
    ensures
        ids(r.admins@) == state.admin_ids(),
{
    AdminsResponse { admins: copy_ids(&state.admins) }
}

/// Lists the operators.
pub fn query_operators(state: &BridgeState) -> (r: OperatorsResponse)
    ensures
        ids(r.operators@) == state.operator_ids(),
{
    OperatorsResponse { operators: copy_ids(&state.operators) }
}

/// The destination of each source collection, in order; fails at the first
/// address that is invalid or has no mapping.
pub fn query_collection_mappings(state: &BridgeState, source_contracts: Vec<CheckedAddr>) -> (r:
    Result<CollectionMappingResponse, ContractError>)
    requires
        state.wf(),
    ensures
        collection_mappings_post(*state, source_contracts@, r),
{
    let ghost f = state.forward_map();
    let ghost want = source_contracts@.map_values(|a: CheckedAddr| f[addr_text(a)]);
    let mut destinations: Vec<String> = Vec::new();
    let mut i: usize = 0;
    while i < source_contracts.len()
        invariant
            i <= source_contracts.len(),
            state.wf(),
            f == state.forward_map(),
            want == source_contracts@.map_values(|a: CheckedAddr| f[addr_text(a)]),
            forall|j: int| 0 <= j < i ==> resolves(f, #[trigger] source_contracts@[j]),
            ids(destinations@) == want.take(i as int),
        decreases source_contracts.len() - i,
    {
        match &source_contracts[i] {
            Err(a) => {
                return Err(ContractError::InvalidAddress { address: a.clone() });
            },
            Ok(s) => {
                match resolve_destination(state, s) {
                    Ok(d) => {
                        let ghost before = destinations@;
                        destinations.push(d);
                        assert(ids(destinations@) =~= ids(before).push(want[i as int]));
                        assert(want.take(i + 1) =~= want.take(i as int).push(want[i as int]));
                    },
                    Err(e) => {
                        return Err(e);
                    },
                }
            },
        }
        i = i + 1;
    }
    assert(want.take(source_contracts.len() as int) =~= want);
    Ok(CollectionMappingResponse { destinations })
}

/// One page of the history of a token, newest first: the records with
/// sequence number below `start_after`, at most `limit` of them (the default
/// when none is named, never more than the largest).
pub fn query_history(
    state: &BridgeState,
    collection_address: CheckedAddr,
    token_id: String,
    start_after: Option<u64>,
    limit: Option<u8>,
) -> (r: Result<HistoryResponse, ContractError>)
    requires
        state.wf(),
    ensures
        history_post(*state, collection_address, token_id@, start_after, limit, r),
{
    let source_addr = match collection_address {
        Ok(c) => c,
        Err(address) => return Err(ContractError::InvalidAddress { address }),
    };
    let asked: u8 = match limit {
        Some(l) => l,
        None => DEFAULT_LIMIT,
    };
    let limit_used: u8 = if asked < MAX_LIMIT { asked } else { MAX_LIMIT };
    let records = range_history(state, &source_addr, &token_id, start_after, limit_used as usize, Order::Descending);
    let ghost want = records@.map_values(|x: BridgeRecord| response_of(x));
    let mut history: Vec<BridgeRecordResponse> = Vec::new();
    let mut i: usize = 0;
    while i < records.len()
        invariant
            i <= records.len(),
            want == records@.map_values(|x: BridgeRecord| response_of(x)),
            history@ == want.take(i as int),
        decreases records.len() - i,
    {
        let rec = copy_record(&records[i]);
        history.push(BridgeRecordResponse::from(rec));
        assert(want.take(i + 1) =~= want.take(i as int).push(want[i as int]));
        i = i + 1;
    }
    assert(want.take(records.len() as int) =~= want);
    Ok(HistoryResponse { history })
}

} // verus!
