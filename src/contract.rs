//! The entry points: setting the bridge up, and the dispatch of each request
//! to the operation that serves it.
use vstd::prelude::*;
use crate::error::ContractError;
use crate::execute::{
    receive_nft_post, release_nft_post, try_receive_nft, try_release_nft,
    try_update_collection_mappings, try_update_pause, try_update_super_users,
    update_collection_mappings_post, update_pause_post, update_super_users_post, ReceiveOutcome,
    ReleaseOutcome,
};
use crate::laws::lemma_admin_inclusion;
use crate::msg::{
    addr_texts, all_valid, first_invalid, AdminsResponse, CollectionMappingResponse, ExecuteMsg,
    HistoryResponse, InstantiateMsg, OperatorsResponse, QueryMsg,
};
use crate::query::{
    collection_mappings_post, history_post, query_admins, query_collection_mappings, query_history,
    query_operators,
};
use crate::state::{buckets, contains_id, flags, ids, pairs, BlockInfo, BridgeRecord, BridgeState};
use crate::utils::{first_invalid_of, valid_list};

verus! {

/// The admin list with the caller appended unless it is already there.
pub open spec fn with_caller(admins: Seq<Seq<char>>, caller: Seq<char>) -> Seq<Seq<char>> {
    if admins.contains(caller) {
        admins
    } else {
        admins.push(caller)
    }
}

/// Sets the bridge up: the admins (with the caller among them) and operators,
/// not paused, no mappings, an empty ledger.
pub fn instantiate(sender: String, msg: InstantiateMsg) -> (r: Result<BridgeState, ContractError>)
    ensures
        !all_valid(msg.admins@) ==> (r matches Err(ContractError::InvalidAddress { address })
            && first_invalid(msg.admins@, address@)),
        all_valid(msg.admins@) && !all_valid(msg.operators@) ==> (r matches Err(
            ContractError::InvalidAddress { address },
        ) && first_invalid(msg.operators@, address@)),
        all_valid(msg.admins@) && all_valid(msg.operators@) ==> {
            &&& r matches Ok(s)
            &&& s.wf()
            &&& s.admin_ids() == with_caller(addr_texts(msg.admins@), sender@)
            &&& s.admin_ids().to_set() == addr_texts(msg.admins@).to_set().insert(sender@)
            &&& s.operator_ids() == addr_texts(msg.operators@)
            &&& !s.paused
            &&& s.overrides() == Map::<Seq<char>, bool>::empty()
            &&& s.forward_map() == Map::<Seq<char>, Seq<char>>::empty()
            &&& s.reverse_map() == Map::<Seq<char>, Seq<char>>::empty()
            &&& s.ledger_map() == Map::<(Seq<char>, Seq<char>), Seq<BridgeRecord>>::empty()
        },
{
    if let Some(address) = first_invalid_of(&msg.admins) {
        return Err(ContractError::InvalidAddress { address });
    }
    let mut admins = valid_list(&msg.admins);
    if !contains_id(&admins, &sender) {
        let ghost before = admins@;
        admins.push(sender);
        assert(ids(admins@) =~= ids(before).push(sender@));
    }
    if let Some(address) = first_invalid_of(&msg.operators) {
        return Err(ContractError::InvalidAddress { address });
    }
    let operators = valid_list(&msg.operators);
    let state = BridgeState {
        admins,
        operators,
        paused: false,
        collection_paused: Vec::new(),
        forward: Vec::new(),
        reverse: Vec::new(),
        ledger: Vec::new(),
    };
    assert(flags(state.collection_paused@) =~= Seq::empty());
    assert(pairs(state.forward@) =~= Seq::empty());
    assert(pairs(state.reverse@) =~= Seq::empty());
    assert(buckets(state.ledger@) =~= Seq::empty());
    proof {
        reveal(crate::state::bijective);
        lemma_admin_inclusion(addr_texts(msg.admins@), sender@);
    }
    Ok(state)
}

/// What a change request produced.
#[derive(Debug)]
pub enum ExecuteOutcome {
    /// an authority, pause or mapping update; `changed` is false only for an
    /// authority update that left its list as it was
    Updated { changed: bool },
    Released(ReleaseOutcome),
    Received(ReceiveOutcome),
}

pub open spec fn lift_users(r: Result<bool, ContractError>) -> Result<ExecuteOutcome, ContractError> {
    match r {
        Ok(changed) => Ok(ExecuteOutcome::Updated { changed }),
        Err(e) => Err(e),
    }
}

pub open spec fn lift_unit(r: Result<(), ContractError>) -> Result<ExecuteOutcome, ContractError> {
    match r {
        Ok(_) => Ok(ExecuteOutcome::Updated { changed: true }),
        Err(e) => Err(e),
    }
}

pub open spec fn lift_release(r: Result<ReleaseOutcome, ContractError>) -> Result<
    ExecuteOutcome,
    ContractError,
> {
    match r {
        Ok(o) => Ok(ExecuteOutcome::Released(o)),
        Err(e) => Err(e),
    }
}

pub open spec fn lift_receive(r: Result<ReceiveOutcome, ContractError>) -> Result<
    ExecuteOutcome,
    ContractError,
> {
    match r {
        Ok(o) => Ok(ExecuteOutcome::Received(o)),
        Err(e) => Err(e),
    }
}

/// Serves a change request from `caller` in the block `block`. A received
/// token comes from the collection contract, which is the caller.
pub fn execute(state: &mut BridgeState, caller: String, block: BlockInfo, msg: ExecuteMsg) -> (r:
    Result<ExecuteOutcome, ContractError>)
    requires
        old(state).wf(),
    ensures
        final(state).wf(),
        match msg {
            ExecuteMsg::UpdateAdmins { add, remove } => exists|u: Result<bool, ContractError>|
                update_super_users_post(*old(state), *final(state), caller@, true, add, remove, u)
                    && r == lift_users(u),
            ExecuteMsg::UpdateOperators { add, remove } => exists|u: Result<bool, ContractError>|
                update_super_users_post(*old(state), *final(state), caller@, false, add, remove, u)
                    && r == lift_users(u),
            ExecuteMsg::UpdatePause { pause, collection } => exists|u: Result<(), ContractError>|
                update_pause_post(*old(state), *final(state), caller@, pause, collection, u) && r
                    == lift_unit(u),
            ExecuteMsg::UpdateCollectionMapping { add, remove } => exists|
                u: Result<(), ContractError>,
            |
                update_collection_mappings_post(*old(state), *final(state), caller@, remove, add, u)
                    && r == lift_unit(u),
            ExecuteMsg::ReleaseNft {
                recipient,
                sn_collection,
                sn_address,
                token_id,
                recipient_is_contract,
            } => exists|u: Result<ReleaseOutcome, ContractError>|
                release_nft_post(
                    *old(state),
                    *final(state),
                    caller@,
                    block,
                    sn_collection@,
                    sn_address@,
                    recipient,
                    token_id@,
                    recipient_is_contract,
                    u,
                ) && r == lift_release(u),
            ExecuteMsg::ReceiveNft { sender, token_id, msg } => exists|
                u: Result<ReceiveOutcome, ContractError>,
            |
                receive_nft_post(
                    *old(state),
                    *final(state),
                    caller@,
                    block,
                    sender,
                    token_id@,
                    msg@,
                    u,
                ) && r == lift_receive(u),
        },
{
    match msg {
        ExecuteMsg::UpdateAdmins { add, remove } => {
            let u = try_update_super_users(state, &caller, true, add, remove);
            let r = match u {
                Ok(changed) => Ok(ExecuteOutcome::Updated { changed }),
                Err(e) => Err(e),
            };
            assert(r == lift_users(u));
            r
        },
        ExecuteMsg::UpdateOperators { add, remove } => {
            let u = try_update_super_users(state, &caller, false, add, remove);
            let r = match u {
                Ok(changed) => Ok(ExecuteOutcome::Updated { changed }),
                Err(e) => Err(e),
            };
            assert(r == lift_users(u));
            r
        },
        ExecuteMsg::UpdatePause { pause, collection } => {
            let u = try_update_pause(state, &caller, pause, collection);
            let r = match u {
                Ok(_) => Ok(ExecuteOutcome::Updated { changed: true }),
                Err(e) => Err(e),
            };
            assert(r == lift_unit(u));
            r
        },
        ExecuteMsg::UpdateCollectionMapping { add, remove } => {
            let u = try_update_collection_mappings(state, &caller, remove, add);
            let r = match u {
                Ok(_) => Ok(ExecuteOutcome::Updated { changed: true }),
                Err(e) => Err(e),
            };
            assert(r == lift_unit(u));
            r
        },
        ExecuteMsg::ReleaseNft { recipient, sn_collection, sn_address, token_id, recipient_is_contract } => {
            let u = try_release_nft(
                state,
                &caller,
                block,
                sn_collection,
                sn_address,
                recipient,
                token_id,
                recipient_is_contract,
            );
            let r = match u {
                Ok(o) => Ok(ExecuteOutcome::Released(o)),
                Err(e) => Err(e),
            };
            assert(r == lift_release(u));
            r
        },
        ExecuteMsg::ReceiveNft { sender, token_id, msg } => {
            let u = try_receive_nft(state, caller, block, sender, token_id, &msg);
            let r = match u {
                Ok(o) => Ok(ExecuteOutcome::Received(o)),
                Err(e) => Err(e),
            };
            assert(r == lift_receive(u));
            r
        },
    }
}

/// The answer to a read-only request.
#[derive(Debug)]
pub enum QueryResponse {
    Admins(AdminsResponse),
    Operators(OperatorsResponse),
    CollectionMappings(CollectionMappingResponse),
    History(HistoryResponse),
}

/// Serves a read-only request.
pub fn query(state: &BridgeState, msg: QueryMsg) -> (r: Result<QueryResponse, ContractError>)
    requires
        state.wf(),
    ensures
        match msg {
            QueryMsg::Admins {  } => r matches Ok(QueryResponse::Admins(a)) && ids(a.admins@)
                == state.admin_ids(),
            QueryMsg::Operators {  } => r matches Ok(QueryResponse::Operators(o)) && ids(
                o.operators@,
            ) == state.operator_ids(),
            QueryMsg::CollectionMappings { source_contracts } => exists|
                u: Result<CollectionMappingResponse, ContractError>,
            |
                collection_mappings_post(*state, source_contracts@, u) && r == match u {
                    Ok(m) => Ok(QueryResponse::CollectionMappings(m)),
                    Err(e) => Err(e),
                },
            QueryMsg::HistoryByToken { collection_address, token_id, start_after, limit } => exists|
                u: Result<HistoryResponse, ContractError>,
            |
                history_post(*state, collection_address, token_id@, start_after, limit, u) && r
                    == match u {
                    Ok(h) => Ok(QueryResponse::History(h)),
                    Err(e) => Err(e),
                },
        },
{
    match msg {
        QueryMsg::Admins {  } => Ok(QueryResponse::Admins(query_admins(state))),
        QueryMsg::Operators {  } => Ok(QueryResponse::Operators(query_operators(state))),
        QueryMsg::CollectionMappings { source_contracts } => {
            let ghost sources = source_contracts@;
            let u = query_collection_mappings(state, source_contracts);
            match u {
                Ok(m) => Ok(QueryResponse::CollectionMappings(m)),
                Err(e) => Err(e),
            }
        },
        QueryMsg::HistoryByToken { collection_address, token_id, start_after, limit } => {
            let u = query_history(state, collection_address, token_id, start_after, limit);
            match u {
                Ok(h) => Ok(QueryResponse::History(h)),
                Err(e) => Err(e),
            }
        },
    }
}

} // verus!
