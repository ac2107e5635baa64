//! The bridge's state: authority lists, pause flags, the collection mapping
//! tables and the crossing ledger, with their mathematical views.
use vstd::prelude::*;
use crate::table::{has_key, keys_unique, table_map};

verus! {

/// Number of records a history page holds when the reader names no limit.
pub const DEFAULT_LIMIT: u8 = 15;
/// Largest number of records a history page holds.
pub const MAX_LIMIT: u8 = 30;

/// One crossing of a token, kept for audit; never changed once written.
#[derive(Debug)]
pub struct BridgeRecord {
    /// true if the token left the escrow, false if it entered it
    pub is_released: bool,
    /// id of bridged token
    pub token_id: String,
    /// the source-chain account of the crossing
    pub source_address: Option<String>,
    /// the source-chain collection
    pub source_collection: String,
    /// the destination-chain account of the crossing
    pub destination_address: Option<String>,
    /// the destination-chain collection
    pub destination_collection: String,
    /// the block height of the crossing
    pub block_height: u64,
    /// the block time of the crossing, in seconds since the epoch
    pub block_time: u64,
}

/// The records of one (collection, token) pair and its sequence counter.
#[derive(Debug)]
pub struct TokenHistory {
    pub collection: String,
    pub token_id: String,
    /// the sequence number of the last record, 0 before the first
    pub count: u64,
    /// the record with sequence number `n` stands at index `n - 1`
    pub records: Vec<BridgeRecord>,
}

/// Height and time of the block that carries the request.
#[derive(Clone, Copy, Debug)]
pub struct BlockInfo {
    pub height: u64,
    /// seconds since the epoch
    pub time: u64,
}

/// The whole state of the bridge.
#[derive(Debug)]
pub struct BridgeState {
    pub admins: Vec<String>,
    pub operators: Vec<String>,
    /// the global pause flag
    pub paused: bool,
    /// per-collection pause overrides, one entry per collection
    pub collection_paused: Vec<(String, bool)>,
    /// source collection to destination collection
    pub forward: Vec<(String, String)>,
    /// destination collection to source collection
    pub reverse: Vec<(String, String)>,
    /// one entry per (collection, token) pair that has records
    pub ledger: Vec<TokenHistory>,
}

/// Every source maps to a destination that maps back to it, and the reverse.
#[verifier::opaque]
pub open spec fn bijective(f: Map<Seq<char>, Seq<char>>, r: Map<Seq<char>, Seq<char>>) -> bool {
    &&& forall|s: Seq<char>|
        #[trigger] f.contains_key(s) ==> r.contains_key(f[s]) && r[f[s]] == s
    &&& forall|d: Seq<char>|
        #[trigger] r.contains_key(d) ==> f.contains_key(r[d]) && f[r[d]] == d
}

pub open spec fn ids(v: Seq<String>) -> Seq<Seq<char>> {
    v.map_values(|s: String| s@)
}

pub open spec fn pairs(v: Seq<(String, String)>) -> Seq<(Seq<char>, Seq<char>)> {
    v.map_values(|e: (String, String)| (e.0@, e.1@))
}

pub open spec fn flags(v: Seq<(String, bool)>) -> Seq<(Seq<char>, bool)> {
    v.map_values(|e: (String, bool)| (e.0@, e.1))
}

pub open spec fn buckets(v: Seq<TokenHistory>) -> Seq<((Seq<char>, Seq<char>), Seq<BridgeRecord>)> {
    v.map_values(|b: TokenHistory| ((b.collection@, b.token_id@), b.records@))
}

impl BridgeState {
    pub open spec fn admin_ids(&self) -> Seq<Seq<char>> {
        ids(self.admins@)
    }

    pub open spec fn operator_ids(&self) -> Seq<Seq<char>> {
        ids(self.operators@)
    }

    /// The per-collection pause overrides.
    pub open spec fn overrides(&self) -> Map<Seq<char>, bool> {
        table_map(flags(self.collection_paused@))
    }

    /// Source collection to destination collection.
    pub open spec fn forward_map(&self) -> Map<Seq<char>, Seq<char>> {
        table_map(pairs(self.forward@))
    }

    /// Destination collection to source collection.
    pub open spec fn reverse_map(&self) -> Map<Seq<char>, Seq<char>> {
        table_map(pairs(self.reverse@))
    }

    /// The records of each (collection, token) pair that has any.
    pub open spec fn ledger_map(&self) -> Map<(Seq<char>, Seq<char>), Seq<BridgeRecord>> {
        table_map(buckets(self.ledger@))
    }

    /// The records of a token in order of sequence number, the first at index 0.
    pub open spec fn history(&self, collection: Seq<char>, token_id: Seq<char>) -> Seq<BridgeRecord> {
        if self.ledger_map().contains_key((collection, token_id)) {
            self.ledger_map()[(collection, token_id)]
        } else {
            Seq::empty()
        }
    }

    pub open spec fn is_admin(&self, id: Seq<char>) -> bool {
        self.admin_ids().contains(id)
    }

    /// Operators and admins may take operator actions.
    pub open spec fn is_operator_or_admin(&self, id: Seq<char>) -> bool {
        self.operator_ids().contains(id) || self.admin_ids().contains(id)
    }

    /// The global flag, or else the collection's own override.
    pub open spec fn is_paused(&self, collection: Seq<char>) -> bool {
        self.paused || (self.overrides().contains_key(collection) && self.overrides()[collection])
    }

    pub open spec fn mapping_bijective(&self) -> bool {
        bijective(self.forward_map(), self.reverse_map())
    }

    /// The invariant of the state.
    pub open spec fn wf(&self) -> bool {
        &&& keys_unique(flags(self.collection_paused@))
        &&& keys_unique(pairs(self.forward@))
        &&& keys_unique(pairs(self.reverse@))
        &&& keys_unique(buckets(self.ledger@))
        &&& forall|i: int|
            0 <= i < self.ledger@.len() ==> (#[trigger] self.ledger@[i]).count
                == self.ledger@[i].records@.len()
        &&& self.mapping_bijective()
    }
}

/// Whether `x` is in the list.
pub fn contains_id(v: &Vec<String>, x: &String) -> (r: bool)
    ensures
        r == ids(v@).contains(x@),
{
    let mut i: usize = 0;
    while i < v.len()
        invariant
            i <= v.len(),
            forall|j: int| 0 <= j < i ==> v@[j]@ != x@,
        decreases v.len() - i,
    {
        if v[i] == *x {
            assert(ids(v@)[i as int] == x@);
            return true;
        }
        i = i + 1;
    }
    assert forall|j: int| 0 <= j < ids(v@).len() implies ids(v@)[j] != x@ by {
        assert(ids(v@)[j] == v@[j]@);
    }
    false
}

/// The index of the entry with key `k`, if there is one.
pub fn find_pair(t: &Vec<(String, String)>, k: &String) -> (r: Option<usize>)
    ensures
        match r {
            Some(i) => i < t@.len() && t@[i as int].0@ == k@,
            None => !has_key(pairs(t@), k@),
        },
{
    let mut i: usize = 0;
    while i < t.len()
        invariant
            i <= t.len(),
            forall|j: int| 0 <= j < i ==> t@[j].0@ != k@,
        decreases t.len() - i,
    {
        if t[i].0 == *k {
            return Some(i);
        }
        i = i + 1;
    }
    assert forall|j: int| 0 <= j < pairs(t@).len() implies pairs(t@)[j].0 != k@ by {
        assert(pairs(t@)[j].0 == t@[j].0@);
    }
    None
}

/// The index of the override of collection `k`, if there is one.
pub fn find_flag(t: &Vec<(String, bool)>, k: &String) -> (r: Option<usize>)
    ensures
        match r {
            Some(i) => i < t@.len() && t@[i as int].0@ == k@,
            None => !has_key(flags(t@), k@),
        },
{
    let mut i: usize = 0;
    while i < t.len()
        invariant
            i <= t.len(),
            forall|j: int| 0 <= j < i ==> t@[j].0@ != k@,
        decreases t.len() - i,
    {
        if t[i].0 == *k {
            return Some(i);
        }
        i = i + 1;
    }
    assert forall|j: int| 0 <= j < flags(t@).len() implies flags(t@)[j].0 != k@ by {
        assert(flags(t@)[j].0 == t@[j].0@);
    }
    None
}

/// The index of the history of (`collection`, `token_id`), if it has records.
pub fn find_bucket(v: &Vec<TokenHistory>, collection: &String, token_id: &String) -> (r: Option<
    usize,
>)
    ensures
        match r {
            Some(i) => i < v@.len() && v@[i as int].collection@ == collection@ && v@[i as int].token_id@
                == token_id@,
            None => !has_key(buckets(v@), (collection@, token_id@)),
        },
{
    let mut i: usize = 0;
    while i < v.len()
        invariant
            i <= v.len(),
            forall|j: int|
                0 <= j < i ==> (v@[j].collection@, v@[j].token_id@) != (collection@, token_id@),
        decreases v.len() - i,
    {
        if v[i].collection == *collection && v[i].token_id == *token_id {
            return Some(i);
        }
        i = i + 1;
    }
    assert forall|j: int| 0 <= j < buckets(v@).len() implies buckets(v@)[j].0 != (
        collection@,
        token_id@,
    ) by {
        assert(buckets(v@)[j].0 == (v@[j].collection@, v@[j].token_id@));
    }
    None
}

} // verus!
