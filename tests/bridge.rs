use terra_bridge::contract::{execute, instantiate, query, ExecuteOutcome, QueryResponse};
use terra_bridge::error::ContractError;
use terra_bridge::execute::{
    try_receive_nft, try_release_nft, try_update_collection_mappings, try_update_pause,
    try_update_super_users,
};
use terra_bridge::ledger::{range_history, save_history, Order};
use terra_bridge::mapping::{resolve_destination, resolve_source};
use terra_bridge::msg::{
    BridgeRecordResponse, CheckedAddr, CollectionMapping, ExecuteMsg, HistoryResponse,
    InstantiateMsg, QueryMsg,
};
use terra_bridge::query::{query_admins, query_collection_mappings, query_history, query_operators};
use terra_bridge::state::{BlockInfo, BridgeRecord, BridgeState};

const CREATOR: &str = "creator";

fn ok(s: &str) -> CheckedAddr {
    Ok(s.to_string())
}

fn oks(v: &[&str]) -> Vec<CheckedAddr> {
    v.iter().map(|s| ok(s)).collect()
}

fn strings(v: &[&str]) -> Vec<String> {
    v.iter().map(|s| s.to_string()).collect()
}

fn get_admins() -> Vec<CheckedAddr> {
    oks(&[CREATOR, "champ", "bobcat"])
}

fn get_admins_no_creator() -> Vec<CheckedAddr> {
    oks(&["champ", "bobcat"])
}

fn get_opers() -> Vec<CheckedAddr> {
    oks(&["tommy", "titan"])
}

fn do_instantiate(admins: Vec<CheckedAddr>, operators: Vec<CheckedAddr>) -> Result<BridgeState, ContractError> {
    instantiate(CREATOR.to_string(), InstantiateMsg { admins, operators })
}

fn block() -> BlockInfo {
    BlockInfo { height: 12_345, time: 1_571_797_419 }
}

fn pair(source: &str, destination: &str) -> CollectionMapping {
    CollectionMapping { source: ok(source), destination: ok(destination) }
}

fn json_string(s: &str) -> Vec<u8> {
    format!("\"{}\"", s).into_bytes()
}

fn destinations(state: &BridgeState, sources: &[&str]) -> Result<Vec<String>, ContractError> {
    query_collection_mappings(state, oks(sources)).map(|r| r.destinations)
}

fn history(state: &BridgeState, collection: &str, token_id: &str, start_after: Option<u64>, limit: Option<u8>) -> HistoryResponse {
    query_history(state, ok(collection), token_id.to_string(), start_after, limit).unwrap()
}

fn record(n: u64) -> BridgeRecord {
    BridgeRecord {
        is_released: n % 2 == 0,
        token_id: "t".to_string(),
        source_address: Some(format!("acct{}", n)),
        source_collection: "c".to_string(),
        destination_address: None,
        destination_collection: "d".to_string(),
        block_height: n,
        block_time: 100 + n,
    }
}

fn ledger_with(n: u64) -> BridgeState {
    let mut state = do_instantiate(get_admins(), get_opers()).unwrap();
    for i in 1..=n {
        assert_eq!(save_history(&mut state, "c".to_string(), "t".to_string(), record(i)).unwrap(), i);
    }
    state
}

fn heights(rs: &[BridgeRecord]) -> Vec<u64> {
    rs.iter().map(|r| r.block_height).collect()
}

#[test]
fn proper_instantiation() {
    let state = do_instantiate(get_admins(), get_opers()).unwrap();
    assert_eq!(query_admins(&state).admins, strings(&[CREATOR, "champ", "bobcat"]));
    assert_eq!(query_operators(&state).operators, strings(&["tommy", "titan"]));
    assert!(!state.paused);
    assert!(state.forward.is_empty() && state.reverse.is_empty() && state.ledger.is_empty());
}

#[test]
fn omit_sender_instantiation() {
    let state = do_instantiate(get_admins_no_creator(), get_opers()).unwrap();
    assert_eq!(query_admins(&state).admins, strings(&["champ", "bobcat", CREATOR]));
}

#[test]
fn update_admins() {
    let mut state = do_instantiate(get_admins(), get_opers()).unwrap();
    let admins_add = oks(&["willie"]);
    let admins_rem = oks(&["champ"]);
    try_update_super_users(&mut state, &CREATOR.to_string(), true, Some(admins_add.clone()), Some(admins_rem.clone())).unwrap();
    let success_res = strings(&[CREATOR, "bobcat", "willie"]);
    assert_eq!(query_admins(&state).admins, success_res);

    let err = try_update_super_users(&mut state, &"nonadmin".to_string(), true, Some(admins_rem), Some(admins_add)).unwrap_err();
    assert!(matches!(err, ContractError::Unauthorized {}));
    assert_eq!(query_admins(&state).admins, success_res);
}

#[test]
fn update_opers() {
    let mut state = do_instantiate(get_admins(), get_opers()).unwrap();
    let opers_add = oks(&["willie"]);
    let opers_rem = oks(&["tommy"]);
    try_update_super_users(&mut state, &CREATOR.to_string(), false, Some(opers_add.clone()), Some(opers_rem.clone())).unwrap();
    let success_res = strings(&["titan", "willie"]);
    assert_eq!(query_operators(&state).operators, success_res);

    let err = try_update_super_users(&mut state, &"nonadmin".to_string(), false, Some(opers_rem), Some(opers_add)).unwrap_err();
    assert!(matches!(err, ContractError::Unauthorized {}));
    assert_eq!(query_operators(&state).operators, success_res);
}

#[test]
fn update_collection_mappings() {
    let mut state = do_instantiate(get_admins(), get_opers()).unwrap();
    let add_list = vec![pair("terra contract 1", "secret contract 1"), pair("terra contract 2", "secret contract 2")];
    let err = try_update_collection_mappings(&mut state, &"not an operator".to_string(), None, Some(add_list)).unwrap_err();
    assert!(matches!(err, ContractError::Unauthorized {}));

    let tommy = "tommy".to_string();
    let add_list = vec![pair("terra contract 1", "secret contract 1"), pair("terra contract 2", "secret contract 2")];
    try_update_collection_mappings(&mut state, &tommy, None, Some(add_list)).unwrap();
    assert_eq!(
        destinations(&state, &["terra contract 1", "terra contract 2"]).unwrap(),
        strings(&["secret contract 1", "secret contract 2"])
    );

    let rem_list = vec![pair("terra contract 1", "secret contract 1")];
    try_update_collection_mappings(&mut state, &tommy, Some(rem_list), None).unwrap();
    assert_eq!(destinations(&state, &["terra contract 2"]).unwrap(), strings(&["secret contract 2"]));

    let rem_list = vec![pair("terra contract 2", "secret contract 2")];
    let add_list = vec![pair("terra contract 2", "secret contract 2.0")];
    try_update_collection_mappings(&mut state, &tommy, Some(rem_list), Some(add_list)).unwrap();
    let dests = destinations(&state, &["terra contract 2"]).unwrap();
    assert_eq!(dests.len(), 1);
    assert_eq!(dests, strings(&["secret contract 2.0"]));
}

#[test]
fn receive_nft() {
    let mut state = do_instantiate(get_admins(), get_opers()).unwrap();
    let terra_coll_addr = "terra contract";
    let sender = ok("terra wallet");
    let token_id = "0".to_string();
    let payload = json_string("secret wallet");
    let err = try_receive_nft(&mut state, terra_coll_addr.to_string(), block(), sender.clone(), token_id.clone(), &payload).unwrap_err();
    assert!(matches!(err, ContractError::UnauthorizedCollection {}));

    let add_list = vec![pair(terra_coll_addr, "secret contract")];
    try_update_collection_mappings(&mut state, &CREATOR.to_string(), None, Some(add_list)).unwrap();
    try_receive_nft(&mut state, terra_coll_addr.to_string(), block(), sender, token_id.clone(), &payload).unwrap();

    let response = history(&state, terra_coll_addr, &token_id, None, Some(1));
    let res_success = HistoryResponse {
        history: vec![BridgeRecordResponse {
            is_released: false,
            token_id: token_id.clone(),
            source_address: Some("terra wallet".into()),
            source_collection: terra_coll_addr.into(),
            destination_address: Some("secret wallet".into()),
            destination_collection: "secret contract".into(),
            block_height: block().height,
            block_time: block().time,
        }],
    };
    assert_eq!(response, res_success);
}

#[test]
fn release_nft() {
    let mut state = do_instantiate(get_admins(), get_opers()).unwrap();
    let terra_coll_addr = "terra contract".to_string();
    let sn_coll_addr = "secret contract".to_string();
    try_update_collection_mappings(&mut state, &CREATOR.to_string(), None, Some(vec![pair(&terra_coll_addr, &sn_coll_addr)])).unwrap();
    let token_id = "token_id".to_string();
    try_receive_nft(&mut state, terra_coll_addr.clone(), block(), ok("terra sender"), token_id.clone(), &json_string("secret sender")).unwrap();

    let sn_sender = "secret sender".to_string();
    let recipient = "terra recipient".to_string();
    let err = try_release_nft(&mut state, &"not an operator".to_string(), block(), sn_coll_addr.clone(), sn_sender.clone(), Ok(recipient.clone()), token_id.clone(), false).unwrap_err();
    assert!(matches!(err, ContractError::Unauthorized {}));

    let out = try_release_nft(&mut state, &CREATOR.to_string(), block(), sn_coll_addr.clone(), sn_sender.clone(), Ok(recipient.clone()), token_id.clone(), false).unwrap();
    let transfer_bin = cosmwasm_std::to_json_vec(&cw721::Cw721ExecuteMsg::TransferNft {
        recipient: recipient.clone(),
        token_id: token_id.clone(),
    })
    .unwrap();
    assert_eq!(out.contract_addr, terra_coll_addr);
    assert_eq!(out.msg, transfer_bin);
    assert_eq!(out.history_id, 2);
}

#[test]
fn instantiate_admins_are_named_plus_caller() {
    let state = instantiate("A".to_string(), InstantiateMsg { admins: oks(&["A", "B"]), operators: oks(&["C"]) }).unwrap();
    assert_eq!(query_admins(&state).admins, strings(&["A", "B"]));
    assert_eq!(query_operators(&state).operators, strings(&["C"]));
}

#[test]
fn instantiate_rejects_invalid_address() {
    let r = instantiate(CREATOR.to_string(), InstantiateMsg { admins: vec![ok("a"), Err("BAD".to_string()), Err("WORSE".to_string())], operators: vec![] });
    assert!(matches!(r, Err(ContractError::InvalidAddress { address }) if address == "BAD"));
    let r = instantiate(CREATOR.to_string(), InstantiateMsg { admins: oks(&["a"]), operators: vec![Err("op?".to_string())] });
    assert!(matches!(r, Err(ContractError::InvalidAddress { address }) if address == "op?"));
}

#[test]
fn update_rejects_invalid_removal_without_change() {
    let mut state = do_instantiate(get_admins(), get_opers()).unwrap();
    let r = try_update_super_users(&mut state, &CREATOR.to_string(), true, Some(oks(&["willie"])), Some(vec![Err("no good".to_string())]));
    assert!(matches!(r, Err(ContractError::InvalidAddress { address }) if address == "no good"));
    assert_eq!(query_admins(&state).admins, strings(&[CREATOR, "champ", "bobcat"]));
}

#[test]
fn adding_present_admin_is_no_change() {
    let mut state = do_instantiate(get_admins(), get_opers()).unwrap();
    try_update_super_users(&mut state, &CREATOR.to_string(), true, Some(oks(&["champ", "new", "new"])), None).unwrap();
    assert_eq!(query_admins(&state).admins, strings(&[CREATOR, "champ", "bobcat", "new"]));
}

#[test]
fn update_reports_whether_list_changed() {
    let mut state = do_instantiate(get_admins(), get_opers()).unwrap();
    let me = CREATOR.to_string();
    assert!(!try_update_super_users(&mut state, &me, false, Some(oks(&["tommy"])), None).unwrap());
    assert!(!try_update_super_users(&mut state, &me, false, Some(oks(&["w"])), Some(oks(&["w"]))).unwrap());
    assert!(try_update_super_users(&mut state, &me, false, None, Some(oks(&["titan"]))).unwrap());
    assert_eq!(query_operators(&state).operators, strings(&["tommy"]));
}

#[test]
fn operator_cannot_update_operators() {
    let mut state = do_instantiate(get_admins(), get_opers()).unwrap();
    let r = try_update_super_users(&mut state, &"tommy".to_string(), false, Some(oks(&["x"])), None);
    assert!(matches!(r, Err(ContractError::Unauthorized {})));
    assert_eq!(query_operators(&state).operators, strings(&["tommy", "titan"]));
}

#[test]
fn second_mapping_of_source_is_refused() {
    let mut state = do_instantiate(get_admins(), get_opers()).unwrap();
    let me = CREATOR.to_string();
    try_update_collection_mappings(&mut state, &me, None, Some(vec![pair("X", "Y")])).unwrap();
    let r = try_update_collection_mappings(&mut state, &me, None, Some(vec![pair("X", "Z")]));
    assert!(matches!(r, Err(ContractError::MappingExists { source_addr }) if source_addr == "X"));
    assert_eq!(resolve_destination(&state, &"X".to_string()).unwrap(), "Y");
    assert!(matches!(resolve_source(&state, &"Z".to_string()), Err(ContractError::MappingNotFound { .. })));
}

#[test]
fn second_mapping_of_destination_is_refused() {
    let mut state = do_instantiate(get_admins(), get_opers()).unwrap();
    let me = CREATOR.to_string();
    let r = try_update_collection_mappings(&mut state, &me, None, Some(vec![pair("X", "Y"), pair("W", "Y")]));
    assert!(matches!(r, Err(ContractError::MappingExists { source_addr }) if source_addr == "Y"));
    // nothing of the refused update stays
    assert!(matches!(resolve_destination(&state, &"X".to_string()), Err(ContractError::MappingNotFound { .. })));
}

#[test]
fn removal_must_match_stored_destination() {
    let mut state = do_instantiate(get_admins(), get_opers()).unwrap();
    let me = CREATOR.to_string();
    try_update_collection_mappings(&mut state, &me, None, Some(vec![pair("X", "Y")])).unwrap();
    let r = try_update_collection_mappings(&mut state, &me, Some(vec![pair("X", "Q")]), None);
    assert!(matches!(r, Err(ContractError::MappingNotFound { source_addr }) if source_addr == "X"));
    let r = try_update_collection_mappings(&mut state, &me, Some(vec![pair("none", "Y")]), None);
    assert!(matches!(r, Err(ContractError::MappingNotFound { source_addr }) if source_addr == "none"));
    assert_eq!(resolve_source(&state, &"Y".to_string()).unwrap(), "X");
}

#[test]
fn mappings_resolve_both_ways() {
    let mut state = do_instantiate(get_admins(), get_opers()).unwrap();
    try_update_collection_mappings(&mut state, &"titan".to_string(), None, Some(vec![pair("s1", "d1"), pair("s2", "d2")])).unwrap();
    for (s, d) in [("s1", "d1"), ("s2", "d2")] {
        let dest = resolve_destination(&state, &s.to_string()).unwrap();
        assert_eq!(dest, d);
        assert_eq!(resolve_source(&state, &dest).unwrap(), s);
    }
}

#[test]
fn query_mappings_fails_on_unknown_source() {
    let mut state = do_instantiate(get_admins(), get_opers()).unwrap();
    try_update_collection_mappings(&mut state, &CREATOR.to_string(), None, Some(vec![pair("s1", "d1")])).unwrap();
    let r = destinations(&state, &["s1", "s9"]);
    assert!(matches!(r, Err(ContractError::MappingNotFound { source_addr }) if source_addr == "s9"));
    let r = query_collection_mappings(&state, vec![ok("s1"), Err("??".to_string())]);
    assert!(matches!(r, Err(ContractError::InvalidAddress { address }) if address == "??"));
}

#[test]
fn receive_from_unmapped_collection_leaves_ledger_empty() {
    let mut state = do_instantiate(get_admins(), get_opers()).unwrap();
    let r = try_receive_nft(&mut state, "U".to_string(), block(), ok("wallet"), "1".to_string(), &json_string("x"));
    assert!(matches!(r, Err(ContractError::UnauthorizedCollection {})));
    assert!(history(&state, "U", "1", None, None).history.is_empty());
    assert!(state.ledger.is_empty());
}

#[test]
fn release_while_paused_is_refused() {
    let mut state = do_instantiate(get_admins(), get_opers()).unwrap();
    let me = CREATOR.to_string();
    try_update_collection_mappings(&mut state, &me, None, Some(vec![pair("T", "S")])).unwrap();
    try_update_pause(&mut state, &me, true, None).unwrap();
    let r = try_release_nft(&mut state, &me, block(), "S".to_string(), "s".to_string(), ok("r"), "1".to_string(), false);
    assert!(matches!(r, Err(ContractError::BridgePaused {})));
    assert!(state.ledger.is_empty());
}

#[test]
fn pause_twice_stays_paused() {
    let mut state = do_instantiate(get_admins(), get_opers()).unwrap();
    let op = "tommy".to_string();
    try_update_pause(&mut state, &op, true, None).unwrap();
    try_update_pause(&mut state, &op, true, None).unwrap();
    assert!(state.paused);
    let r = try_update_pause(&mut state, &"nobody".to_string(), false, None);
    assert!(matches!(r, Err(ContractError::Unauthorized {})));
    assert!(state.paused);
}

#[test]
fn collection_pause_blocks_only_that_collection() {
    let mut state = do_instantiate(get_admins(), get_opers()).unwrap();
    let me = CREATOR.to_string();
    try_update_collection_mappings(&mut state, &me, None, Some(vec![pair("A", "a"), pair("B", "b")])).unwrap();
    try_update_pause(&mut state, &me, true, Some(ok("A"))).unwrap();
    let r = try_receive_nft(&mut state, "A".to_string(), block(), ok("w"), "1".to_string(), &json_string("x"));
    assert!(matches!(r, Err(ContractError::BridgePaused {})));
    let out = try_receive_nft(&mut state, "B".to_string(), block(), ok("w"), "1".to_string(), &json_string("x")).unwrap();
    assert_eq!(out.history_id, 1);
    try_update_pause(&mut state, &me, false, Some(ok("A"))).unwrap();
    assert_eq!(try_receive_nft(&mut state, "A".to_string(), block(), ok("w"), "1".to_string(), &json_string("x")).unwrap().history_id, 1);
    let r = try_update_pause(&mut state, &me, true, Some(Err("bad coll".to_string())));
    assert!(matches!(r, Err(ContractError::InvalidAddress { address }) if address == "bad coll"));
}

#[test]
fn receive_rejects_invalid_sender_and_payload() {
    let mut state = do_instantiate(get_admins(), get_opers()).unwrap();
    try_update_collection_mappings(&mut state, &CREATOR.to_string(), None, Some(vec![pair("A", "a")])).unwrap();
    let r = try_receive_nft(&mut state, "A".to_string(), block(), Err("bad wallet".to_string()), "1".to_string(), &json_string("x"));
    assert!(matches!(r, Err(ContractError::InvalidAddress { address }) if address == "bad wallet"));
    let r = try_receive_nft(&mut state, "A".to_string(), block(), ok("w"), "1".to_string(), &b"not json".to_vec());
    assert!(matches!(r, Err(ContractError::Std(_))));
    assert!(state.ledger.is_empty());
}

#[test]
fn receive_reports_decoded_sender() {
    let mut state = do_instantiate(get_admins(), get_opers()).unwrap();
    try_update_collection_mappings(&mut state, &CREATOR.to_string(), None, Some(vec![pair("A", "a")])).unwrap();
    let out = try_receive_nft(&mut state, "A".to_string(), block(), ok("w"), "1".to_string(), &json_string("secret1xyz")).unwrap();
    assert_eq!(out.destination_sender, "secret1xyz");
    assert_eq!(out.destination_collection, "a");
}

#[test]
fn release_to_contract_sends_with_payload() {
    let mut state = do_instantiate(get_admins(), get_opers()).unwrap();
    try_update_collection_mappings(&mut state, &CREATOR.to_string(), None, Some(vec![pair("T", "S")])).unwrap();
    let out = try_release_nft(&mut state, &"titan".to_string(), block(), "S".to_string(), "s".to_string(), ok("market"), "7".to_string(), true).unwrap();
    let send_bin = cosmwasm_std::to_json_vec(&cw721::Cw721ExecuteMsg::SendNft {
        contract: "market".to_string(),
        token_id: "7".to_string(),
        msg: cosmwasm_std::Binary::from(Vec::<u8>::new()),
    })
    .unwrap();
    assert_eq!(out.msg, send_bin);
    assert_ne!(out.msg, b"market".to_vec());
    assert_eq!(out.history_id, 1);
    let h = history(&state, "T", "7", None, None).history;
    assert_eq!(h.len(), 1);
    assert!(h[0].is_released);
    assert_eq!(h[0].source_address, Some("market".to_string()));
    assert_eq!(h[0].destination_address, Some("s".to_string()));
    assert_eq!(h[0].destination_collection, "S");
}

#[test]
fn release_of_unmapped_collection_and_invalid_recipient() {
    let mut state = do_instantiate(get_admins(), get_opers()).unwrap();
    let me = CREATOR.to_string();
    let r = try_release_nft(&mut state, &me, block(), "S".to_string(), "s".to_string(), ok("r"), "1".to_string(), false);
    assert!(matches!(r, Err(ContractError::MappingNotFound { source_addr }) if source_addr == "S"));
    try_update_collection_mappings(&mut state, &me, None, Some(vec![pair("T", "S")])).unwrap();
    let r = try_release_nft(&mut state, &me, block(), "S".to_string(), "s".to_string(), Err("R!".to_string()), "1".to_string(), false);
    assert!(matches!(r, Err(ContractError::InvalidAddress { address }) if address == "R!"));
}

#[test]
fn sequence_numbers_count_up_across_mapping_changes() {
    let mut state = do_instantiate(get_admins(), get_opers()).unwrap();
    let me = CREATOR.to_string();
    try_update_collection_mappings(&mut state, &me, None, Some(vec![pair("T", "S")])).unwrap();
    let a = try_receive_nft(&mut state, "T".to_string(), block(), ok("w"), "9".to_string(), &json_string("x")).unwrap();
    let b = try_release_nft(&mut state, &me, block(), "S".to_string(), "x".to_string(), ok("w"), "9".to_string(), false).unwrap();
    try_update_collection_mappings(&mut state, &me, Some(vec![pair("T", "S")]), Some(vec![pair("T", "S2")])).unwrap();
    let c = try_receive_nft(&mut state, "T".to_string(), block(), ok("w"), "9".to_string(), &json_string("x")).unwrap();
    let other = try_receive_nft(&mut state, "T".to_string(), block(), ok("w"), "10".to_string(), &json_string("x")).unwrap();
    assert_eq!((a.history_id, b.history_id, c.history_id, other.history_id), (1, 2, 3, 1));
    assert_eq!(c.destination_collection, "S2");
}

#[test]
fn pages_ascending_and_descending() {
    let state = ledger_with(5);
    let c = "c".to_string();
    let t = "t".to_string();
    assert_eq!(heights(&range_history(&state, &c, &t, None, 10, Order::Ascending)), vec![1, 2, 3, 4, 5]);
    assert_eq!(heights(&range_history(&state, &c, &t, Some(2), 2, Order::Ascending)), vec![3, 4]);
    assert_eq!(heights(&range_history(&state, &c, &t, Some(5), 2, Order::Ascending)), Vec::<u64>::new());
    assert_eq!(heights(&range_history(&state, &c, &t, None, 2, Order::Descending)), vec![5, 4]);
    assert_eq!(heights(&range_history(&state, &c, &t, Some(4), 10, Order::Descending)), vec![3, 2, 1]);
    assert_eq!(heights(&range_history(&state, &c, &t, Some(1), 10, Order::Descending)), Vec::<u64>::new());
    assert_eq!(heights(&range_history(&state, &c, &t, Some(0), 10, Order::Descending)), Vec::<u64>::new());
    assert_eq!(heights(&range_history(&state, &c, &t, None, 0, Order::Ascending)), Vec::<u64>::new());
    assert!(range_history(&state, &c, &"other".to_string(), None, 10, Order::Ascending).is_empty());
}

#[test]
fn history_limit_defaults_and_is_capped() {
    let state = ledger_with(40);
    assert_eq!(history(&state, "c", "t", None, None).history.len(), 15);
    assert_eq!(history(&state, "c", "t", None, Some(100)).history.len(), 30);
    let page = history(&state, "c", "t", Some(10), Some(3)).history;
    assert_eq!(page.iter().map(|r| r.block_height).collect::<Vec<_>>(), vec![9, 8, 7]);
    assert_eq!(page[0].block_time, 109);
    let r = query_history(&state, Err("X".to_string()), "t".to_string(), None, None);
    assert!(matches!(r, Err(ContractError::InvalidAddress { address }) if address == "X"));
}

#[test]
fn dispatch_routes_each_request() {
    let mut state = do_instantiate(get_admins(), get_opers()).unwrap();
    let me = CREATOR.to_string();
    let r = execute(&mut state, me.clone(), block(), ExecuteMsg::UpdateCollectionMapping { add: Some(vec![pair("T", "S")]), remove: None });
    assert!(matches!(r, Ok(ExecuteOutcome::Updated { changed: true })));
    let r = execute(&mut state, "T".to_string(), block(), ExecuteMsg::ReceiveNft { sender: ok("w"), token_id: "1".to_string(), msg: json_string("z") });
    assert!(matches!(r, Ok(ExecuteOutcome::Received(ref o)) if o.history_id == 1));
    let r = execute(&mut state, me.clone(), block(), ExecuteMsg::ReleaseNft { recipient: ok("w"), sn_collection: "S".to_string(), sn_address: "z".to_string(), token_id: "1".to_string(), recipient_is_contract: false });
    assert!(matches!(r, Ok(ExecuteOutcome::Released(ref o)) if o.history_id == 2 && o.contract_addr == "T"));
    let r = execute(&mut state, me.clone(), block(), ExecuteMsg::UpdateAdmins { add: Some(oks(&["zed"])), remove: None });
    assert!(matches!(r, Ok(ExecuteOutcome::Updated { changed: true })));
    let r = execute(&mut state, me.clone(), block(), ExecuteMsg::UpdateAdmins { add: Some(oks(&["zed"])), remove: Some(oks(&["nobody"])) });
    assert!(matches!(r, Ok(ExecuteOutcome::Updated { changed: false })));
    let r = execute(&mut state, me.clone(), block(), ExecuteMsg::UpdateOperators { add: None, remove: Some(oks(&["tommy"])) });
    assert!(matches!(r, Ok(ExecuteOutcome::Updated { changed: true })));
    let r = execute(&mut state, "tommy".to_string(), block(), ExecuteMsg::UpdatePause { pause: true, collection: None });
    assert!(matches!(r, Err(ContractError::Unauthorized {})));
    match query(&state, QueryMsg::Admins {}).unwrap() {
        QueryResponse::Admins(a) => assert_eq!(a.admins, strings(&[CREATOR, "champ", "bobcat", "zed"])),
        _ => panic!("wrong response"),
    }
    match query(&state, QueryMsg::Operators {}).unwrap() {
        QueryResponse::Operators(o) => assert_eq!(o.operators, strings(&["titan"])),
        _ => panic!("wrong response"),
    }
    match query(&state, QueryMsg::CollectionMappings { source_contracts: oks(&["T"]) }).unwrap() {
        QueryResponse::CollectionMappings(m) => assert_eq!(m.destinations, strings(&["S"])),
        _ => panic!("wrong response"),
    }
    match query(&state, QueryMsg::HistoryByToken { collection_address: ok("T"), token_id: "1".to_string(), start_after: None, limit: None }).unwrap() {
        QueryResponse::History(h) => {
            assert_eq!(h.history.len(), 2);
            assert!(h.history[0].is_released);
            assert!(!h.history[1].is_released);
        }
        _ => panic!("wrong response"),
    }
}
