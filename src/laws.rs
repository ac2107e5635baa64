//! Properties that hold across operations of the bridge.
use vstd::prelude::*;
use crate::contract::with_caller;
use crate::error::ContractError;
use crate::execute::{update_collection_mappings_post, update_pause_post, update_super_users_post};
use crate::ledger::{page, Order};
use crate::msg::{CheckedAddr, CollectionMapping};
use crate::state::{BridgeRecord, BridgeState};

verus! {

/// In every well-formed state the two mapping tables are inverse: the source of
/// a source's destination is that source, and the destination of a
/// destination's source is that destination.
pub proof fn lemma_mapping_round_trip(state: BridgeState, s: Seq<char>, d: Seq<char>)
    requires
        state.wf(),
    ensures
        state.forward_map().contains_key(s) ==> state.reverse_map().contains_key(
            state.forward_map()[s],
        ) && state.reverse_map()[state.forward_map()[s]] == s,
        state.reverse_map().contains_key(d) ==> state.forward_map().contains_key(
            state.reverse_map()[d],
        ) && state.forward_map()[state.reverse_map()[d]] == d,
{
    reveal(crate::state::bijective);
    if state.forward_map().contains_key(s) {
        assert(state.forward_map().contains_key(s));
    }
    if state.reverse_map().contains_key(d) {
        assert(state.reverse_map().contains_key(d));
    }
}

/// The admins after setup, as a set, are those named plus the caller.
pub proof fn lemma_admin_inclusion(admins: Seq<Seq<char>>, caller: Seq<char>)
    ensures
        with_caller(admins, caller).to_set() == admins.to_set().insert(caller),
{
    if admins.contains(caller) {
        assert(admins.to_set().insert(caller) =~= admins.to_set());
    } else {
        admins.lemma_push_to_set_commute(caller);
    }
}

/// A caller who is not an admin changes no authority list and is told `Unauthorized`.
pub proof fn lemma_unauthorized_authority_update(
    old: BridgeState,
    new: BridgeState,
    sender: Seq<char>,
    is_admin: bool,
    add_list: Option<Vec<CheckedAddr>>,
    remove_list: Option<Vec<CheckedAddr>>,
    r: Result<bool, ContractError>,
)
    requires
        update_super_users_post(old, new, sender, is_admin, add_list, remove_list, r),
        !old.is_admin(sender),
    ensures
        new == old,
        r matches Err(ContractError::Unauthorized {}),
{
}

/// A caller who is neither operator nor admin changes no pause flag and is told `Unauthorized`.
pub proof fn lemma_unauthorized_pause(
    old: BridgeState,
    new: BridgeState,
    sender: Seq<char>,
    pause: bool,
    collection: Option<CheckedAddr>,
    r: Result<(), ContractError>,
)
    requires
        update_pause_post(old, new, sender, pause, collection, r),
        !old.is_operator_or_admin(sender),
    ensures
        new == old,
        r matches Err(ContractError::Unauthorized {}),
{
}

/// A caller who is neither operator nor admin changes no mapping and is told `Unauthorized`.
pub proof fn lemma_unauthorized_mapping_update(
    old: BridgeState,
    new: BridgeState,
    sender: Seq<char>,
    rem_list: Option<Vec<CollectionMapping>>,
    add_list: Option<Vec<CollectionMapping>>,
    r: Result<(), ContractError>,
)
    requires
        update_collection_mappings_post(old, new, sender, rem_list, add_list, r),
        !old.is_operator_or_admin(sender),
    ensures
        new == old,
        r matches Err(ContractError::Unauthorized {}),
{
}

/// Two appends to the history of one token, with any changes between them
/// that keep the ledger (authority, pause and mapping updates do), get
/// consecutive sequence numbers; the first record of a token gets 1.
pub proof fn lemma_consecutive_sequence_numbers(
    s0: BridgeState,
    s1: BridgeState,
    s2: BridgeState,
    s3: BridgeState,
    c: Seq<char>,
    t: Seq<char>,
    id1: u64,
    rec1: BridgeRecord,
    id2: u64,
    rec2: BridgeRecord,
)
    requires
        id1 == s0.history(c, t).len() + 1,
        s1.ledger_map() == s0.ledger_map().insert((c, t), s0.history(c, t).push(rec1)),
        s2.ledger == s1.ledger,
        id2 == s2.history(c, t).len() + 1,
        s3.ledger_map() == s2.ledger_map().insert((c, t), s2.history(c, t).push(rec2)),
    ensures
        id2 == id1 + 1,
        s0.history(c, t).len() == 0 ==> id1 == 1,
        s3.history(c, t).len() == id2,
        s3.history(c, t)[id1 - 1] == rec1,
        s3.history(c, t)[id2 - 1] == rec2,
{
    assert(s1.history(c, t) == s0.history(c, t).push(rec1));
    assert(s2.history(c, t) == s1.history(c, t));
    assert(s3.history(c, t) == s2.history(c, t).push(rec2));
}

/// Sequence number `n` lies beyond `start_after` in the direction of `order`.
pub open spec fn beyond(n: int, start_after: Option<u64>, order: Order) -> bool {
    match start_after {
        None => true,
        Some(k) => match order {
            Order::Ascending => n > k,
            Order::Descending => n < k,
        },
    }
}

/// The sequence number of the record at index `i` of a page of a history of
/// `len` records.
pub open spec fn page_seq(len: int, start_after: Option<u64>, limit: nat, order: Order, i: int) -> int {
    match order {
        Order::Ascending => {
            let lo = match start_after {
                None => 0,
                Some(k) => if k < len { k as int } else { len },
            };
            lo + i + 1
        },
        Order::Descending => {
            let hi = match start_after {
                None => len,
                Some(k) => if k == 0 { 0 } else if k - 1 < len { k - 1 } else { len },
            };
            hi - i
        },
    }
}

/// A page holds at most `limit` records of the token's own history, in order
/// of sequence number (rising when ascending, falling when descending), each
/// with a sequence number beyond `start_after`: above it in ascending order,
/// below it in descending order. The record with sequence number `n` stands
/// at index `n - 1` of the history.
pub proof fn lemma_page_bounds(h: Seq<BridgeRecord>, start_after: Option<u64>, limit: nat, order: Order)
    ensures
        page(h, start_after, limit, order).len() <= limit,
        forall|i: int| #![trigger page(h, start_after, limit, order)[i]]
            0 <= i < page(h, start_after, limit, order).len() ==> {
                let n = page_seq(h.len() as int, start_after, limit, order, i);
                &&& 1 <= n <= h.len()
                &&& page(h, start_after, limit, order)[i] == h[n - 1]
                &&& beyond(n, start_after, order)
            },
        forall|i: int, j: int|
            0 <= i < j < page(h, start_after, limit, order).len() ==> match order {
                Order::Ascending => #[trigger] page_seq(h.len() as int, start_after, limit, order, i)
                    < #[trigger] page_seq(h.len() as int, start_after, limit, order, j),
                Order::Descending => page_seq(h.len() as int, start_after, limit, order, i)
                    > page_seq(h.len() as int, start_after, limit, order, j),
            },
{
}

/// Pausing the whole bridge twice in a row by an operator or admin succeeds
/// both times and leaves it paused, the second time changing nothing.
pub proof fn lemma_pause_idempotent(
    s0: BridgeState,
    s1: BridgeState,
    s2: BridgeState,
    sender: Seq<char>,
    r1: Result<(), ContractError>,
    r2: Result<(), ContractError>,
)
    requires
        s0.is_operator_or_admin(sender),
        update_pause_post(s0, s1, sender, true, None, r1),
        update_pause_post(s1, s2, sender, true, None, r2),
    ensures
        r1 is Ok,
        r2 is Ok,
        s1.paused,
        s2 == s1,
{
    assert(s1.admins == s0.admins && s1.operators == s0.operators);
}

} // verus!
