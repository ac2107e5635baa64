//! The operations that change the bridge.
use vstd::prelude::*;
use cosmwasm_std::StdError;
use crate::codec::{
    decode_string, encode_send, encode_transfer, json_string_of, send_nft_json, transfer_nft_json,
};
use crate::error::ContractError;
use crate::ledger::save_history;
use crate::mapping::{
    apply_steps, copy_pairs, lemma_steps_refusal_stays, lemma_update_bijective, mapping_update,
    refused_as, resolve_destination, resolve_source, Refusal, Tables,
};
use crate::msg::{
    addr_text, addr_texts, all_valid, first_invalid, opt_list, CheckedAddr, CollectionMapping,
};
use crate::state::{find_flag, find_pair, flags, pairs, BlockInfo, BridgeRecord, BridgeState};
use crate::table::{
    keys_unique, lemma_table_absent, lemma_table_index, lemma_table_push, lemma_table_remove,
    lemma_table_update, table_map,
};
use crate::utils::{
    add_all, add_ids, check_is_admin, check_is_operator, check_is_paused, copy_ids,
    first_invalid_of, remove_all, remove_ids, same_ids,
};

verus! {

/// What a receive reports: the ledger entry and where the token is bridged to.
#[derive(Debug)]
pub struct ReceiveOutcome {
    pub history_id: u64,
    pub destination_collection: String,
    pub destination_sender: String,
}

/// What a release reports: the ledger entry and the one instruction to send,
/// `msg` to the collection contract `contract_addr`.
#[derive(Debug)]
pub struct ReleaseOutcome {
    pub history_id: u64,
    pub contract_addr: String,
    pub msg: Vec<u8>,
}

/// The record holds these values, both accounts present.
pub open spec fn record_is(
    r: BridgeRecord,
    is_released: bool,
    token_id: Seq<char>,
    source_address: Seq<char>,
    source_collection: Seq<char>,
    destination_address: Seq<char>,
    destination_collection: Seq<char>,
    block: BlockInfo,
) -> bool {
    &&& r.is_released == is_released
    &&& r.token_id@ == token_id
    &&& (r.source_address matches Some(a) && a@ == source_address)
    &&& r.source_collection@ == source_collection
    &&& (r.destination_address matches Some(d) && d@ == destination_address)
    &&& r.destination_collection@ == destination_collection
    &&& r.block_height == block.height
    &&& r.block_time == block.time
}

/// `new` is `old` with one more record in the history of (`c`, `t`) and nothing else changed.
pub open spec fn appended(old: BridgeState, new: BridgeState, c: Seq<char>, t: Seq<char>) -> bool {
    &&& new.history(c, t).len() == old.history(c, t).len() + 1
    &&& new.history(c, t).drop_last() == old.history(c, t)
    &&& new.ledger_map() == old.ledger_map().insert((c, t), new.history(c, t))
    &&& new.admins == old.admins
    &&& new.operators == old.operators
    &&& new.paused == old.paused
    &&& new.collection_paused == old.collection_paused
    &&& new.forward == old.forward
    &&& new.reverse == old.reverse
}

/// The encoded instruction that hands the token to `recipient`: a send when it is
/// a contract, a transfer otherwise.
pub open spec fn instruction_json(recipient: Seq<char>, token_id: Seq<char>, recipient_is_contract: bool) -> Option<Seq<u8>> {
    if recipient_is_contract {
        send_nft_json(recipient, token_id)
    } else {
        transfer_nft_json(recipient, token_id)
    }
}

/// What `try_update_super_users` guarantees of the state before and after it and of its result.
pub open spec fn update_super_users_post(
    old: BridgeState,
    new: BridgeState,
    sender: Seq<char>,
    is_admin: bool,
    add_list: Option<Vec<CheckedAddr>>,
    remove_list: Option<Vec<CheckedAddr>>,
    r: Result<bool, ContractError>,
) -> bool {
    &&& (r is Err ==> new == old)
    &&& (!old.is_admin(sender) ==> r matches Err(ContractError::Unauthorized {}))
    &&& (old.is_admin(sender) && !all_valid(opt_list(add_list)) ==> (r matches Err(
        ContractError::InvalidAddress { address },
    ) && first_invalid(opt_list(add_list), address@)))
    &&& (old.is_admin(sender) && all_valid(opt_list(add_list)) && !all_valid(
        opt_list(remove_list),
    ) ==> (r matches Err(ContractError::InvalidAddress { address }) && first_invalid(
        opt_list(remove_list),
        address@,
    )))
    &&& (old.is_admin(sender) && all_valid(opt_list(add_list)) && all_valid(
        opt_list(remove_list),
    ) ==> {
        &&& r == Ok::<bool, ContractError>(
            if is_admin {
                new.admin_ids() != old.admin_ids()
            } else {
                new.operator_ids() != old.operator_ids()
            },
        )
        &&& new.paused == old.paused
        &&& new.collection_paused == old.collection_paused
        &&& new.forward == old.forward
        &&& new.reverse == old.reverse
        &&& new.ledger == old.ledger
        &&& if is_admin {
            &&& new.admin_ids() == remove_ids(
                add_ids(old.admin_ids(), addr_texts(opt_list(add_list))),
                addr_texts(opt_list(remove_list)),
            )
            &&& new.operators == old.operators
        } else {
            &&& new.operator_ids() == remove_ids(
                add_ids(old.operator_ids(), addr_texts(opt_list(add_list))),
                addr_texts(opt_list(remove_list)),
            )
            &&& new.admins == old.admins
        }
    })
}

/// Adds, then removes, admins (`is_admin`) or operators. Only an admin may do
/// either. Tells whether the list changed, so that an unchanged one need not
/// be written back.
pub fn try_update_super_users(
    state: &mut BridgeState,
    sender: &String,
    is_admin: bool,
    add_list: Option<Vec<CheckedAddr>>,
    remove_list: Option<Vec<CheckedAddr>>,
) -> (r: Result<bool, ContractError>)
    requires
        old(state).wf(),
    ensures
        final(state).wf(),
        update_super_users_post(*old(state), *final(state), sender@, is_admin, add_list, remove_list, r),
{
    if !check_is_admin(state, sender) {
        return Err(ContractError::Unauthorized {  });
    }
    let adds = match add_list {
        Some(v) => v,
        None => Vec::new(),
    };
    let rems = match remove_list {
        Some(v) => v,
        None => Vec::new(),
    };
    assert(adds@ == opt_list(add_list));
    assert(rems@ == opt_list(remove_list));
    if let Some(address) = first_invalid_of(&adds) {
        return Err(ContractError::InvalidAddress { address });
    }
    if let Some(address) = first_invalid_of(&rems) {
        return Err(ContractError::InvalidAddress { address });
    }
    if is_admin {
        let before = copy_ids(&state.admins);
        add_all(&mut state.admins, &adds);
        let kept = remove_all(&state.admins, &rems);
        state.admins = kept;
        Ok(!same_ids(&state.admins, &before))
    } else {
        let before = copy_ids(&state.operators);
        add_all(&mut state.operators, &adds);
        let kept = remove_all(&state.operators, &rems);
        state.operators = kept;
        Ok(!same_ids(&state.operators, &before))
    }
}

/// What `try_update_pause` guarantees of the state before and after it and of its result.
pub open spec fn update_pause_post(
    old: BridgeState,
    new: BridgeState,
    sender: Seq<char>,
    pause: bool,
    collection: Option<CheckedAddr>,
    r: Result<(), ContractError>,
) -> bool {
    &&& (r is Err ==> new == old)
    &&& (!old.is_operator_or_admin(sender) ==> r matches Err(ContractError::Unauthorized {}))
    &&& (old.is_operator_or_admin(sender) ==> match collection {
        Some(Err(a)) => (r matches Err(ContractError::InvalidAddress { address }) && address@
            == a@),
        Some(Ok(c)) => {
            &&& r is Ok
            &&& new.overrides() == old.overrides().insert(c@, pause)
            &&& new.paused == old.paused
            &&& new.admins == old.admins
            &&& new.operators == old.operators
            &&& new.forward == old.forward
            &&& new.reverse == old.reverse
            &&& new.ledger == old.ledger
        },
        None => {
            &&& r is Ok
            &&& new.paused == pause
            &&& new.collection_paused == old.collection_paused
            &&& new.admins == old.admins
            &&& new.operators == old.operators
            &&& new.forward == old.forward
            &&& new.reverse == old.reverse
            &&& new.ledger == old.ledger
        },
    })
}

/// Sets the pause override of `collection`, or the global flag when none is
/// named. Operators and admins may do so.
pub fn try_update_pause(
    state: &mut BridgeState,
    sender: &String,
    pause: bool,
    collection: Option<CheckedAddr>,
) -> (r: Result<(), ContractError>)
    requires
        old(state).wf(),
    ensures
        final(state).wf(),
        update_pause_post(*old(state), *final(state), sender@, pause, collection, r),
{
    if !check_is_operator(state, sender) {
        return Err(ContractError::Unauthorized {  });
    }
    match collection {
        Some(Err(address)) => Err(ContractError::InvalidAddress { address }),
        Some(Ok(coll)) => {
            let ghost t = flags(state.collection_paused@);
            match find_flag(&state.collection_paused, &coll) {
                Some(i) => {
                    proof {
                        lemma_table_update(t, i as int, pause);
                    }
                    state.collection_paused.set(i, (coll, pause));
                    assert(flags(state.collection_paused@) =~= t.update(i as int, (t[i as int].0, pause)));
                },
                None => {
                    proof {
                        lemma_table_push(t, (coll@, pause));
                    }
                    state.collection_paused.push((coll, pause));
                    assert(flags(state.collection_paused@) =~= t.push((coll@, pause)));
                },
            }
            Ok(())
        },
        None => {
            state.paused = pause;
            Ok(())
        },
    }
}

/// What `try_update_collection_mappings` guarantees of the state before and after it and of its result.
pub open spec fn update_collection_mappings_post(
    old: BridgeState,
    new: BridgeState,
    sender: Seq<char>,
    rem_list: Option<Vec<CollectionMapping>>,
    add_list: Option<Vec<CollectionMapping>>,
    r: Result<(), ContractError>,
) -> bool {
    &&& (r is Err ==> new == old)
    &&& (!old.is_operator_or_admin(sender) ==> r matches Err(ContractError::Unauthorized {}))
    &&& (old.is_operator_or_admin(sender) ==> match mapping_update(
        (old.forward_map(), old.reverse_map()),
        opt_list(rem_list),
        opt_list(add_list),
    ) {
        Err(f) => (r matches Err(e) && refused_as(e, f)),
        Ok(t) => {
            &&& r is Ok
            &&& new.forward_map() == t.0
            &&& new.reverse_map() == t.1
            &&& new.admins == old.admins
            &&& new.operators == old.operators
            &&& new.paused == old.paused
            &&& new.collection_paused == old.collection_paused
            &&& new.ledger == old.ledger
        },
    })
}

/// Removes, then adds, collection mappings. Operators and admins may do so.
/// Nothing changes unless every step succeeds.
pub fn try_update_collection_mappings(
    state: &mut BridgeState,
    sender: &String,
    rem_list: Option<Vec<CollectionMapping>>,
    add_list: Option<Vec<CollectionMapping>>,
) -> (r: Result<(), ContractError>)
    requires
        old(state).wf(),
    ensures
        final(state).wf(),
        update_collection_mappings_post(*old(state), *final(state), sender@, rem_list, add_list, r),
{
    if !check_is_operator(state, sender) {
        return Err(ContractError::Unauthorized {  });
    }
    let rems = match rem_list {
        Some(v) => v,
        None => Vec::new(),
    };
    let adds = match add_list {
        Some(v) => v,
        None => Vec::new(),
    };
    assert(rems@ == opt_list(rem_list));
    assert(adds@ == opt_list(add_list));
    let ghost t0: Tables = (state.forward_map(), state.reverse_map());
    let mut fwd = copy_pairs(&state.forward);
    let mut rev = copy_pairs(&state.reverse);
    assert(rems@.take(0) =~= Seq::<CollectionMapping>::empty());
    let mut i: usize = 0;
    while i < rems.len()
        invariant
            i <= rems.len(),
            *state == *old(state),
            old(state).wf(),
            old(state).is_operator_or_admin(sender@),
            rems@ == opt_list(rem_list),
            adds@ == opt_list(add_list),
            t0 == (old(state).forward_map(), old(state).reverse_map()),
            keys_unique(pairs(fwd@)),
            keys_unique(pairs(rev@)),
            apply_steps(t0, rems@.take(i as int), false) == Ok::<Tables, Refusal>(
                (table_map(pairs(fwd@)), table_map(pairs(rev@))),
            ),
        decreases rems.len() - i,
    {
        let ghost ps = rems@.take(i + 1);
        assert(ps.drop_last() =~= rems@.take(i as int));
        assert(ps.last() == rems@[i as int]);
        let p = &rems[i];
        let dest = match &p.destination {
            Ok(d) => d.clone(),
            Err(d) => d.clone(),
        };
        assert(dest@ == addr_text(p.destination));
        match &p.source {
            Err(a) => {
                proof {
                    lemma_steps_refusal_stays(t0, rems@, i + 1, false);
                }
                let address = a.clone();
                return Err(ContractError::InvalidAddress { address });
            },
            Ok(s) => {
                match find_pair(&fwd, s) {
                    None => {
                        proof {
                            lemma_table_absent(pairs(fwd@), s@);
                            lemma_steps_refusal_stays(t0, rems@, i + 1, false);
                        }
                        return Err(ContractError::MappingNotFound { source_addr: s.clone() });
                    },
                    Some(j) => {
                        proof {
                            lemma_table_index(pairs(fwd@), j as int);
                        }
                        if !(fwd[j].1 == dest) {
                            proof {
                                lemma_steps_refusal_stays(t0, rems@, i + 1, false);
                            }
                            return Err(ContractError::MappingNotFound { source_addr: s.clone() });
                        }
                        let ghost before = pairs(fwd@);
                        proof {
                            lemma_table_remove(before, j as int);
                        }
                        let _ = fwd.remove(j);
                        assert(pairs(fwd@) =~= before.remove(j as int));
                        match find_pair(&rev, &dest) {
                            Some(k) => {
                                let ghost rbefore = pairs(rev@);
                                proof {
                                    lemma_table_remove(rbefore, k as int);
                                }
                                let _ = rev.remove(k);
                                assert(pairs(rev@) =~= rbefore.remove(k as int));
                            },
                            None => {
                                proof {
                                    lemma_table_absent(pairs(rev@), dest@);
                                }
                                assert(table_map(pairs(rev@)).remove(dest@) =~= table_map(
                                    pairs(rev@),
                                ));
                            },
                        }
                    },
                }
            },
        }
        i = i + 1;
    }
    assert(rems@.take(rems.len() as int) =~= rems@);
    let ghost t1: Tables = (table_map(pairs(fwd@)), table_map(pairs(rev@)));
    assert(adds@.take(0) =~= Seq::<CollectionMapping>::empty());
    let mut i: usize = 0;
    while i < adds.len()
        invariant
            i <= adds.len(),
            *state == *old(state),
            old(state).wf(),
            old(state).is_operator_or_admin(sender@),
            rems@ == opt_list(rem_list),
            adds@ == opt_list(add_list),
            t0 == (old(state).forward_map(), old(state).reverse_map()),
            apply_steps(t0, rems@, false) == Ok::<Tables, Refusal>(t1),
            keys_unique(pairs(fwd@)),
            keys_unique(pairs(rev@)),
            apply_steps(t1, adds@.take(i as int), true) == Ok::<Tables, Refusal>(
                (table_map(pairs(fwd@)), table_map(pairs(rev@))),
            ),
        decreases adds.len() - i,
    {
        let ghost ps = adds@.take(i + 1);
        assert(ps.drop_last() =~= adds@.take(i as int));
        assert(ps.last() == adds@[i as int]);
        let p = &adds[i];
        match &p.source {
            Err(a) => {
                proof {
                    lemma_steps_refusal_stays(t1, adds@, i + 1, true);
                }
                let address = a.clone();
                return Err(ContractError::InvalidAddress { address });
            },
            Ok(s) => match &p.destination {
                Err(d) => {
                    proof {
                        lemma_steps_refusal_stays(t1, adds@, i + 1, true);
                    }
                    return Err(ContractError::InvalidAddress { address: d.clone() });
                },
                Ok(d) => {
                    match find_pair(&fwd, s) {
                        Some(j) => {
                            proof {
                                lemma_table_index(pairs(fwd@), j as int);
                                lemma_steps_refusal_stays(t1, adds@, i + 1, true);
                            }
                            return Err(ContractError::MappingExists { source_addr: s.clone() });
                        },
                        None => {
                            proof {
                                lemma_table_absent(pairs(fwd@), s@);
                            }
                        },
                    }
                    match find_pair(&rev, d) {
                        Some(j) => {
                            proof {
                                lemma_table_index(pairs(rev@), j as int);
                                lemma_steps_refusal_stays(t1, adds@, i + 1, true);
                            }
                            return Err(ContractError::MappingExists { source_addr: d.clone() });
                        },
                        None => {
                            proof {
                                lemma_table_absent(pairs(rev@), d@);
                            }
                        },
                    }
                    let ghost before = pairs(fwd@);
                    let ghost rbefore = pairs(rev@);
                    proof {
                        lemma_table_push(before, (s@, d@));
                        lemma_table_push(rbefore, (d@, s@));
                    }
                    fwd.push((s.clone(), d.clone()));
                    rev.push((d.clone(), s.clone()));
                    assert(pairs(fwd@) =~= before.push((s@, d@)));
                    assert(pairs(rev@) =~= rbefore.push((d@, s@)));
                },
            },
        }
        i = i + 1;
    }
    assert(adds@.take(adds.len() as int) =~= adds@);
    proof {
        reveal(crate::state::bijective);
        lemma_update_bijective(t0, rems@, adds@);
    }
    state.forward = fwd;
    state.reverse = rev;
    Ok(())
}

/// Takes a token into escrow from the collection contract `collection`, the
/// caller, given the decoded payload: the destination-chain sender.
pub fn receive_decoded(
    state: &mut BridgeState,
    collection: String,
    block: BlockInfo,
    sender: CheckedAddr,
    token_id: String,
    sn_sender: Result<String, StdError>,
) -> (r: Result<ReceiveOutcome, ContractError>)
    requires
        old(state).wf(),
    ensures
        final(state).wf(),
        r is Err ==> *final(state) == *old(state),
        !old(state).forward_map().contains_key(collection@) ==> r matches Err(
            ContractError::UnauthorizedCollection {},
        ),
        old(state).forward_map().contains_key(collection@) && old(state).is_paused(collection@)
            ==> r matches Err(ContractError::BridgePaused {}),
        old(state).forward_map().contains_key(collection@) && !old(state).is_paused(collection@)
            ==> match sender {
            Err(a) => (r matches Err(ContractError::InvalidAddress { address }) && address@ == a@),
            Ok(s) => match sn_sender {
                Err(_) => r matches Err(ContractError::Std(_)),
                Ok(d) => if old(state).history(collection@, token_id@).len() >= u64::MAX {
                    r matches Err(ContractError::Std(_))
                } else {
                    &&& r matches Ok(out)
                    &&& out.history_id == old(state).history(collection@, token_id@).len() + 1
                    &&& out.destination_collection@ == old(state).forward_map()[collection@]
                    &&& out.destination_sender@ == d@
                    &&& appended(*old(state), *final(state), collection@, token_id@)
                    &&& record_is(
                        final(state).history(collection@, token_id@).last(),
                        false,
                        token_id@,
                        s@,
                        collection@,
                        d@,
                        old(state).forward_map()[collection@],
                        block,
                    )
                },
            },
        },
{
    let sn_coll_addr = match resolve_destination(state, &collection) {
        Ok(d) => d,
        Err(_) => return Err(ContractError::UnauthorizedCollection {  }),
    };
    if check_is_paused(state, &collection) {
        return Err(ContractError::BridgePaused {  });
    }
    let sender_addr = match sender {
        Ok(s) => s,
        Err(address) => return Err(ContractError::InvalidAddress { address }),
    };
    let sn_sender = match sn_sender {
        Ok(d) => d,
        Err(e) => return Err(ContractError::Std(e)),
    };
    let record = BridgeRecord {
        is_released: false,
        token_id: token_id.clone(),
        source_address: Some(sender_addr),
        source_collection: collection.clone(),
        destination_address: Some(sn_sender.clone()),
        destination_collection: sn_coll_addr.clone(),
        block_height: block.height,
        block_time: block.time,
    };
    let ghost key = (collection@, token_id@);
    let history_id = match save_history(state, collection, token_id, record) {
        Ok(id) => id,
        Err(e) => return Err(e),
    };
    assert(final(state).history(key.0, key.1) == old(state).history(key.0, key.1).push(record));
    assert(final(state).history(key.0, key.1).drop_last() =~= old(state).history(key.0, key.1));
    Ok(ReceiveOutcome { history_id, destination_collection: sn_coll_addr, destination_sender: sn_sender })
}

/// What `try_receive_nft` guarantees of the state before and after it and of its result.
pub open spec fn receive_nft_post(
    old: BridgeState,
    new: BridgeState,
    collection: Seq<char>,
    block: BlockInfo,
    sender: CheckedAddr,
    token_id: Seq<char>,
    msg: Seq<u8>,
    r: Result<ReceiveOutcome, ContractError>,
) -> bool {
    &&& (r is Err ==> new == old)
    &&& (!old.forward_map().contains_key(collection) ==> r matches Err(
        ContractError::UnauthorizedCollection {},
    ))
    &&& (old.forward_map().contains_key(collection) && old.is_paused(collection)
        ==> r matches Err(ContractError::BridgePaused {}))
    &&& (old.forward_map().contains_key(collection) && !old.is_paused(collection)
        ==> match sender {
        Err(a) => (r matches Err(ContractError::InvalidAddress { address }) && address@ == a@),
        Ok(s) => match json_string_of(msg) {
            None => r matches Err(ContractError::Std(_)),
            Some(d) => if old.history(collection, token_id).len() >= u64::MAX {
                r matches Err(ContractError::Std(_))
            } else {
                &&& r matches Ok(out)
                &&& out.history_id == old.history(collection, token_id).len() + 1
                &&& out.destination_collection@ == old.forward_map()[collection]
                &&& out.destination_sender@ == d
                &&& appended(old, new, collection, token_id)
                &&& record_is(
                    new.history(collection, token_id).last(),
                    false,
                    token_id,
                    s@,
                    collection,
                    d,
                    old.forward_map()[collection],
                    block,
                )
            },
        },
    })
}

/// Takes a token into escrow from the collection contract `collection`, the
/// caller; `msg` carries the destination-chain sender as a JSON string.
pub fn try_receive_nft(
    state: &mut BridgeState,
    collection: String,
    block: BlockInfo,
    sender: CheckedAddr,
    token_id: String,
    msg: &Vec<u8>,
) -> (r: Result<ReceiveOutcome, ContractError>)
    requires
        old(state).wf(),
    ensures
        final(state).wf(),
        receive_nft_post(*old(state), *final(state), collection@, block, sender, token_id@, msg@, r),
{
    let sn_sender = decode_string(msg);
    receive_decoded(state, collection, block, sender, token_id, sn_sender)
}

/// Gives an escrowed token back to `recipient`, given the encoded instruction
/// that does so. Operators and admins may do so.
pub fn release_encoded(
    state: &mut BridgeState,
    sender: &String,
    block: BlockInfo,
    sn_coll_addr: String,
    sn_sender: String,
    recipient: CheckedAddr,
    token_id: String,
    instruction: Result<Vec<u8>, StdError>,
) -> (r: Result<ReleaseOutcome, ContractError>)
    requires
        old(state).wf(),
    ensures
        final(state).wf(),
        r is Err ==> *final(state) == *old(state),
        !old(state).is_operator_or_admin(sender@) ==> r matches Err(ContractError::Unauthorized {}),
        old(state).is_operator_or_admin(sender@) && !old(state).reverse_map().contains_key(
            sn_coll_addr@,
        ) ==> (r matches Err(ContractError::MappingNotFound { source_addr }) && source_addr@
            == sn_coll_addr@),
        old(state).is_operator_or_admin(sender@) && old(state).reverse_map().contains_key(
            sn_coll_addr@,
        ) ==> {
            let c = old(state).reverse_map()[sn_coll_addr@];
            if old(state).is_paused(c) {
                r matches Err(ContractError::BridgePaused {})
            } else {
                match recipient {
                    Err(a) => (r matches Err(ContractError::InvalidAddress { address }) && address@
                        == a@),
                    Ok(to) => match instruction {
                        Err(_) => r matches Err(ContractError::Std(_)),
                        Ok(bytes) => if old(state).history(c, token_id@).len() >= u64::MAX {
                            r matches Err(ContractError::Std(_))
                        } else {
                            &&& r matches Ok(out)
                            &&& out.history_id == old(state).history(c, token_id@).len() + 1
                            &&& out.contract_addr@ == c
                            &&& out.msg == bytes
                            &&& appended(*old(state), *final(state), c, token_id@)
                            &&& record_is(
                                final(state).history(c, token_id@).last(),
                                true,
                                token_id@,
                                to@,
                                c,
                                sn_sender@,
                                sn_coll_addr@,
                                block,
                            )
                        },
                    },
                }
            }
        },
{
    if !check_is_operator(state, sender) {
        return Err(ContractError::Unauthorized {  });
    }
    let terra_collection = match resolve_source(state, &sn_coll_addr) {
        Ok(c) => c,
        Err(e) => return Err(e),
    };
    if check_is_paused(state, &terra_collection) {
        return Err(ContractError::BridgePaused {  });
    }
    let recipient_valid = match recipient {
        Ok(to) => to,
        Err(address) => return Err(ContractError::InvalidAddress { address }),
    };
    let msg = match instruction {
        Ok(bytes) => bytes,
        Err(e) => return Err(ContractError::Std(e)),
    };
    let record = BridgeRecord {
        is_released: true,
        token_id: token_id.clone(),
        source_address: Some(recipient_valid),
        source_collection: terra_collection.clone(),
        destination_address: Some(sn_sender),
        destination_collection: sn_coll_addr,
        block_height: block.height,
        block_time: block.time,
    };
    let ghost key = (terra_collection@, token_id@);
    let history_id = match save_history(state, terra_collection.clone(), token_id, record) {
        Ok(id) => id,
        Err(e) => return Err(e),
    };
    assert(final(state).history(key.0, key.1) == old(state).history(key.0, key.1).push(record));
    assert(final(state).history(key.0, key.1).drop_last() =~= old(state).history(key.0, key.1));
    Ok(ReleaseOutcome { history_id, contract_addr: terra_collection, msg })
}

/// What `try_release_nft` guarantees of the state before and after it and of its result.
pub open spec fn release_nft_post(
    old: BridgeState,
    new: BridgeState,
    sender: Seq<char>,
    block: BlockInfo,
    sn_coll_addr: Seq<char>,
    sn_sender: Seq<char>,
    recipient: CheckedAddr,
    token_id: Seq<char>,
    recipient_is_contract: bool,
    r: Result<ReleaseOutcome, ContractError>,
) -> bool {
    &&& (r is Err ==> new == old)
    &&& (!old.is_operator_or_admin(sender) ==> r matches Err(ContractError::Unauthorized {}))
    &&& (old.is_operator_or_admin(sender) && !old.reverse_map().contains_key(
        sn_coll_addr,
    ) ==> (r matches Err(ContractError::MappingNotFound { source_addr }) && source_addr@
        == sn_coll_addr))
    &&& (old.is_operator_or_admin(sender) && old.reverse_map().contains_key(
        sn_coll_addr,
    ) ==> {
        let c = old.reverse_map()[sn_coll_addr];
        if old.is_paused(c) {
            r matches Err(ContractError::BridgePaused {})
        } else {
            match recipient {
                Err(a) => (r matches Err(ContractError::InvalidAddress { address }) && address@
                    == a@),
                Ok(to) => match instruction_json(to@, token_id, recipient_is_contract) {
                    None => r matches Err(ContractError::Std(_)),
                    Some(bytes) => if old.history(c, token_id).len() >= u64::MAX {
                        r matches Err(ContractError::Std(_))
                    } else {
                        &&& r matches Ok(out)
                        &&& out.history_id == old.history(c, token_id).len() + 1
                        &&& out.contract_addr@ == c
                        &&& out.msg@ == bytes
                        &&& appended(old, new, c, token_id)
                        &&& record_is(
                            new.history(c, token_id).last(),
                            true,
                            token_id,
                            to@,
                            c,
                            sn_sender,
                            sn_coll_addr,
                            block,
                        )
                    },
                },
            }
        }
    })
}

/// Gives an escrowed token back to `recipient` and builds the instruction for
/// its collection contract. Operators and admins may do so.
pub fn try_release_nft(
    state: &mut BridgeState,
    sender: &String,
    block: BlockInfo,
    sn_coll_addr: String,
    sn_sender: String,
    recipient: CheckedAddr,
    token_id: String,
    recipient_is_contract: bool,
) -> (r: Result<ReleaseOutcome, ContractError>)
    requires
        old(state).wf(),
    ensures
        final(state).wf(),
        release_nft_post(*old(state), *final(state), sender@, block, sn_coll_addr@, sn_sender@, recipient, token_id@, recipient_is_contract, r),
{
    let text = match &recipient {
        Ok(to) => to.clone(),
        Err(a) => a.clone(),
    };
    let instruction = if recipient_is_contract {
        encode_send(&text, &token_id)
    } else {
        encode_transfer(&text, &token_id)
    };
    release_encoded(state, sender, block, sn_coll_addr, sn_sender, recipient, token_id, instruction)
}

} // verus!
