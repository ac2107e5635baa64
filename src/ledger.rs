//! The crossing ledger: per-token sequence numbers, appends, and paged reads.
use vstd::prelude::*;
use crate::codec::overflow_error;
use crate::error::ContractError;
use crate::state::{buckets, find_bucket, BridgeRecord, BridgeState, TokenHistory};
use crate::table::{
    lemma_table_absent, lemma_table_dom, lemma_table_index, lemma_table_push, lemma_table_remove,
};

verus! {

/// The direction of a history read.
#[derive(Clone, Copy, PartialEq, Eq, Structural, Debug)]
pub enum Order {
    Ascending,
    Descending,
}

/// The records of one page: those with sequence number above `start_after`
/// in ascending order, or below it in descending order, at most `limit` of
/// them, nearest to `start_after` first. The record at index `i` has sequence
/// number `i + 1`.
pub open spec fn page(h: Seq<BridgeRecord>, start_after: Option<u64>, limit: nat, order: Order) -> Seq<
    BridgeRecord,
> {
    let n = h.len() as int;
    match order {
        Order::Ascending => {
            let lo = match start_after {
                None => 0,
                Some(k) => if k < n { k as int } else { n },
            };
            let hi = if lo + limit < n { lo + limit } else { n };
            h.subrange(lo, hi)
        },
        Order::Descending => {
            let hi = match start_after {
                None => n,
                Some(k) => if k == 0 { 0 } else if k - 1 < n { k - 1 } else { n },
            };
            let lo = if hi - limit > 0 { hi - limit } else { 0 };
            h.subrange(lo, hi).reverse()
        },
    }
}

/// A copy of a record, equal to it.
pub fn copy_record(r: &BridgeRecord) -> (c: BridgeRecord)
    ensures
        c == *r,
{
    let source_address = match &r.source_address {
        Some(a) => Some(a.clone()),
        None => None,
    };
    let destination_address = match &r.destination_address {
        Some(a) => Some(a.clone()),
        None => None,
    };
    BridgeRecord {
        is_released: r.is_released,
        token_id: r.token_id.clone(),
        source_address,
        source_collection: r.source_collection.clone(),
        destination_address,
        destination_collection: r.destination_collection.clone(),
        block_height: r.block_height,
        block_time: r.block_time,
    }
}

/// The sequence number that the next record of (`source_addr`, `token_id`) gets.
pub fn next_history_pk(state: &BridgeState, source_addr: &String, token_id: &String) -> (r: Result<
    u64,
    ContractError,
>)
    requires
        state.wf(),
    ensures
        state.history(source_addr@, token_id@).len() < u64::MAX ==> r == Ok::<u64, ContractError>(
            (state.history(source_addr@, token_id@).len() + 1) as u64,
        ),
        state.history(source_addr@, token_id@).len() >= u64::MAX ==> r matches Err(
            ContractError::Std(_),
        ),
{
    let count = match find_bucket(&state.ledger, source_addr, token_id) {
        Some(i) => {
            proof {
                lemma_table_index(buckets(state.ledger@), i as int);
                assert(buckets(state.ledger@)[i as int].0 == (source_addr@, token_id@));
            }
            state.ledger[i].count
        },
        None => {
            proof {
                lemma_table_absent(buckets(state.ledger@), (source_addr@, token_id@));
            }
            0
        },
    };
    if count == u64::MAX {
        return Err(ContractError::Std(overflow_error(count)));
    }
    Ok(count + 1)
}

/// Appends `record` to the history of (`source_collection`, `token_id`) under
/// the next sequence number, which it returns.
pub fn save_history(
    state: &mut BridgeState,
    source_collection: String,
    token_id: String,
    record: BridgeRecord,
) -> (r: Result<u64, ContractError>)
    requires
        old(state).wf(),
    ensures
        final(state).wf(),
        r is Err ==> *final(state) == *old(state),
        old(state).history(source_collection@, token_id@).len() >= u64::MAX ==> r matches Err(
            ContractError::Std(_),
        ),
        old(state).history(source_collection@, token_id@).len() < u64::MAX ==> {
            &&& r == Ok::<u64, ContractError>(
                (old(state).history(source_collection@, token_id@).len() + 1) as u64,
            )
            &&& final(state).ledger_map() == old(state).ledger_map().insert(
                (source_collection@, token_id@),
                old(state).history(source_collection@, token_id@).push(record),
            )
            &&& final(state).admins == old(state).admins
            &&& final(state).operators == old(state).operators
            &&& final(state).paused == old(state).paused
            &&& final(state).collection_paused == old(state).collection_paused
            &&& final(state).forward == old(state).forward
            &&& final(state).reverse == old(state).reverse
        },
{
    let history_id = match next_history_pk(state, &source_collection, &token_id) {
        Ok(id) => id,
        Err(e) => return Err(e),
    };
    let ghost key = (source_collection@, token_id@);
    let ghost t = buckets(state.ledger@);
    let ghost h = state.history(source_collection@, token_id@);
    match find_bucket(&state.ledger, &source_collection, &token_id) {
        Some(i) => {
            proof {
                lemma_table_index(t, i as int);
                assert(t[i as int].0 == key);
                lemma_table_remove(t, i as int);
                lemma_table_dom(t.remove(i as int), key);
            }
            let mut bucket = state.ledger.remove(i);
            assert(buckets(state.ledger@) =~= t.remove(i as int));
            bucket.records.push(record);
            bucket.count = history_id;
            let ghost e = ((bucket.collection@, bucket.token_id@), bucket.records@);
            proof {
                lemma_table_push(t.remove(i as int), e);
            }
            let ghost mid = state.ledger@;
            state.ledger.push(bucket);
            assert(buckets(state.ledger@) =~= t.remove(i as int).push(e));
            assert forall|j: int| 0 <= j < state.ledger@.len() implies (
            #[trigger] state.ledger@[j]).count == state.ledger@[j].records@.len() by {
                if j < mid.len() {
                    assert(state.ledger@[j] == mid[j]);
                    if j < i {
                        assert(mid[j] == old(state).ledger@[j]);
                    } else {
                        assert(mid[j] == old(state).ledger@[j + 1]);
                    }
                }
            }
            assert(state.ledger_map() =~= old(state).ledger_map().insert(key, h.push(record)));
        },
        None => {
            proof {
                lemma_table_absent(t, key);
            }
            let mut records: Vec<BridgeRecord> = Vec::new();
            records.push(record);
            let bucket = TokenHistory { collection: source_collection, token_id, count: 1, records };
            let ghost e = ((bucket.collection@, bucket.token_id@), bucket.records@);
            assert(bucket.records@ =~= h.push(record));
            proof {
                lemma_table_push(t, e);
            }
            let ghost mid = state.ledger@;
            state.ledger.push(bucket);
            assert(buckets(state.ledger@) =~= t.push(e));
            assert forall|j: int| 0 <= j < state.ledger@.len() implies (
            #[trigger] state.ledger@[j]).count == state.ledger@[j].records@.len() by {
                if j < mid.len() {
                    assert(state.ledger@[j] == mid[j]);
                }
            }
        },
    }
    Ok(history_id)
}

/// One page of the history of (`collection`, `token_id`); see `page`.
pub fn range_history(
    state: &BridgeState,
    collection: &String,
    token_id: &String,
    start_after: Option<u64>,
    limit: usize,
    order: Order,
) -> (r: Vec<BridgeRecord>)
    requires
        state.wf(),
    ensures
        r@ == page(state.history(collection@, token_id@), start_after, limit as nat, order),
{
    let mut out: Vec<BridgeRecord> = Vec::new();
    let i = match find_bucket(&state.ledger, collection, token_id) {
        Some(i) => i,
        None => {
            proof {
                lemma_table_absent(buckets(state.ledger@), (collection@, token_id@));
            }
            assert(out@ =~= page(state.history(collection@, token_id@), start_after, limit as nat, order));
            return out;
        },
    };
    proof {
        lemma_table_index(buckets(state.ledger@), i as int);
        assert(buckets(state.ledger@)[i as int].0 == (collection@, token_id@));
    }
    let records = &state.ledger[i].records;
    let ghost h = records@;
    assert(h == state.history(collection@, token_id@));
    let n = records.len();
    match order {
        Order::Ascending => {
            let lo: usize = match start_after {
                None => 0,
                Some(k) => if (k as u128) < (n as u128) { k as usize } else { n },
            };
            let hi: usize = if limit < n - lo { lo + limit } else { n };
            let mut j: usize = lo;
            while j < hi
                invariant
                    lo <= j <= hi <= n,
                    n == h.len(),
                    h == records@,
                    out@ == h.subrange(lo as int, j as int),
                decreases hi - j,
            {
                out.push(copy_record(&records[j]));
                assert(h.subrange(lo as int, j + 1) =~= h.subrange(lo as int, j as int).push(h[j as int]));
                j = j + 1;
            }
        },
        Order::Descending => {
            let hi: usize = match start_after {
                None => n,
                Some(k) => if k == 0 {
                    0
                } else if ((k - 1) as u128) < (n as u128) {
                    (k - 1) as usize
                } else {
                    n
                },
            };
            let lo: usize = if limit < hi { hi - limit } else { 0 };
            let mut j: usize = hi;
            while j > lo
                invariant
                    lo <= j <= hi <= n,
                    n == h.len(),
                    h == records@,
                    out@ == h.subrange(j as int, hi as int).reverse(),
                decreases j - lo,
            {
                out.push(copy_record(&records[j - 1]));
                assert(h.subrange(j - 1, hi as int).reverse() =~= h.subrange(j as int, hi as int).reverse().push(
                    h[j - 1],
                ));
                j = j - 1;
            }
        },
    }
    assert(out@ =~= page(h, start_after, limit as nat, order));
    out
}

} // verus!
