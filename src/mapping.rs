//! The collection mapping registry: the model of a mapping update as a run of
//! remove and add steps over the forward and reverse maps, and the lookups.
use vstd::prelude::*;
use crate::error::ContractError;
use crate::msg::{addr_text, CollectionMapping};
use crate::state::{bijective, find_pair, pairs, BridgeState};
use crate::table::{lemma_table_absent, lemma_table_index};

verus! {

/// The forward map (source to destination) and the reverse map.
pub type Tables = (Map<Seq<char>, Seq<char>>, Map<Seq<char>, Seq<char>>);

/// Why a step of a mapping update failed.
pub enum Refusal {
    Invalid(Seq<char>),
    Exists(Seq<char>),
    NotFound(Seq<char>),
}

/// The error that reports a refusal.
pub open spec fn refused_as(e: ContractError, f: Refusal) -> bool {
    match f {
        Refusal::Invalid(a) => e matches ContractError::InvalidAddress { address } && address@ == a,
        Refusal::Exists(a) => e matches ContractError::MappingExists { source_addr } && source_addr@
            == a,
        Refusal::NotFound(a) => e matches ContractError::MappingNotFound { source_addr }
            && source_addr@ == a,
    }
}

/// Removes a pair: its source must be valid and map to exactly its destination.
pub open spec fn remove_step(t: Tables, p: CollectionMapping) -> Result<Tables, Refusal> {
    match p.source {
        Err(a) => Err(Refusal::Invalid(a@)),
        Ok(s) => if t.0.contains_key(s@) && t.0[s@] == addr_text(p.destination) {
            Ok((t.0.remove(s@), t.1.remove(addr_text(p.destination))))
        } else {
            Err(Refusal::NotFound(s@))
        },
    }
}

/// Adds a pair: both addresses must be valid and neither may be mapped yet.
pub open spec fn add_step(t: Tables, p: CollectionMapping) -> Result<Tables, Refusal> {
    match p.source {
        Err(a) => Err(Refusal::Invalid(a@)),
        Ok(s) => match p.destination {
            Err(d) => Err(Refusal::Invalid(d@)),
            Ok(d) => if t.0.contains_key(s@) {
                Err(Refusal::Exists(s@))
            } else if t.1.contains_key(d@) {
                Err(Refusal::Exists(d@))
            } else {
                Ok((t.0.insert(s@, d@), t.1.insert(d@, s@)))
            },
        },
    }
}

/// The steps for each pair in order, stopping at the first refusal.
pub open spec fn apply_steps(t: Tables, ps: Seq<CollectionMapping>, adding: bool) -> Result<
    Tables,
    Refusal,
>
    decreases ps.len(),
{
    if ps.len() == 0 {
        Ok(t)
    } else {
        match apply_steps(t, ps.drop_last(), adding) {
            Err(e) => Err(e),
            Ok(t1) => if adding {
                add_step(t1, ps.last())
            } else {
                remove_step(t1, ps.last())
            },
        }
    }
}

/// A whole mapping update: the removals first, then the additions.
pub open spec fn mapping_update(
    t: Tables,
    rems: Seq<CollectionMapping>,
    adds: Seq<CollectionMapping>,
) -> Result<Tables, Refusal> {
    match apply_steps(t, rems, false) {
        Err(e) => Err(e),
        Ok(t1) => apply_steps(t1, adds, true),
    }
}

/// Once a prefix of the pairs is refused, so is the whole list, for the same reason.
pub proof fn lemma_steps_refusal_stays(t: Tables, ps: Seq<CollectionMapping>, n: int, adding: bool)
    requires
        0 <= n <= ps.len(),
        apply_steps(t, ps.take(n), adding) is Err,
    ensures
        apply_steps(t, ps, adding) == apply_steps(t, ps.take(n), adding),
    decreases ps.len() - n,
{
    if n < ps.len() {
        assert(ps.take(n + 1).drop_last() =~= ps.take(n));
        lemma_steps_refusal_stays(t, ps, n + 1, adding);
    } else {
        assert(ps.take(n) =~= ps);
    }
}

proof fn lemma_step_bijective(t: Tables, p: CollectionMapping, adding: bool)
    requires
        bijective(t.0, t.1),
    ensures
        (if adding { add_step(t, p) } else { remove_step(t, p) }) matches Ok(u) ==> bijective(
            u.0,
            u.1,
        ),
{
    reveal(bijective);
    if adding {
        if let Ok(u) = add_step(t, p) {
            let s = addr_text(p.source);
            let d = addr_text(p.destination);
            assert(u.0 == t.0.insert(s, d) && u.1 == t.1.insert(d, s));
            assert forall|x: Seq<char>| #[trigger]
                u.0.contains_key(x) implies u.1.contains_key(u.0[x]) && u.1[u.0[x]] == x by {
                if x != s {
                    assert(t.1.contains_key(t.0[x]));
                }
            }
            assert forall|y: Seq<char>| #[trigger]
                u.1.contains_key(y) implies u.0.contains_key(u.1[y]) && u.0[u.1[y]] == y by {
                if y != d {
                    assert(t.0.contains_key(t.1[y]));
                }
            }
        }
    } else {
        if let Ok(u) = remove_step(t, p) {
            let s = addr_text(p.source);
            let d = addr_text(p.destination);
            assert(t.0[s] == d);
            assert(t.1.contains_key(d) && t.1[d] == s);
            assert(u.0 == t.0.remove(s) && u.1 == t.1.remove(d));
            assert forall|x: Seq<char>| #[trigger]
                u.0.contains_key(x) implies u.1.contains_key(u.0[x]) && u.1[u.0[x]] == x by {
                assert(t.1.contains_key(t.0[x]));
            }
            assert forall|y: Seq<char>| #[trigger]
                u.1.contains_key(y) implies u.0.contains_key(u.1[y]) && u.0[u.1[y]] == y by {
                assert(t.0.contains_key(t.1[y]));
            }
        }
    }
}

proof fn lemma_steps_bijective(t: Tables, ps: Seq<CollectionMapping>, adding: bool)
    requires
        bijective(t.0, t.1),
    ensures
        apply_steps(t, ps, adding) matches Ok(u) ==> bijective(u.0, u.1),
    decreases ps.len(),
{
    if ps.len() > 0 {
        lemma_steps_bijective(t, ps.drop_last(), adding);
        if let Ok(t1) = apply_steps(t, ps.drop_last(), adding) {
            lemma_step_bijective(t1, ps.last(), adding);
        }
    }
}

/// A mapping update that succeeds keeps the two maps each other's inverse.
pub proof fn lemma_update_bijective(
    t: Tables,
    rems: Seq<CollectionMapping>,
    adds: Seq<CollectionMapping>,
)
    requires
        bijective(t.0, t.1),
    ensures
        mapping_update(t, rems, adds) matches Ok(u) ==> bijective(u.0, u.1),
{
    lemma_steps_bijective(t, rems, false);
    if let Ok(t1) = apply_steps(t, rems, false) {
        lemma_steps_bijective(t1, adds, true);
    }
}

/// A copy of a table.
pub fn copy_pairs(t: &Vec<(String, String)>) -> (r: Vec<(String, String)>)
    ensures
        pairs(r@) == pairs(t@),
{
    let mut r: Vec<(String, String)> = Vec::new();
    let mut i: usize = 0;
    while i < t.len()
        invariant
            i <= t.len(),
            pairs(r@) == pairs(t@).take(i as int),
        decreases t.len() - i,
    {
        let ghost before = r@;
        r.push((t[i].0.clone(), t[i].1.clone()));
        assert(pairs(r@) =~= pairs(before).push((t@[i as int].0@, t@[i as int].1@)));
        assert(pairs(t@).take(i + 1) =~= pairs(t@).take(i as int).push(pairs(t@)[i as int]));
        i = i + 1;
    }
    assert(pairs(t@).take(t.len() as int) =~= pairs(t@));
    r
}

/// The destination collection of a source collection.
pub fn resolve_destination(state: &BridgeState, source: &String) -> (r: Result<String, ContractError>)
    requires
        state.wf(),
    ensures
        state.forward_map().contains_key(source@) ==> (r matches Ok(d) && d@
            == state.forward_map()[source@]),
        !state.forward_map().contains_key(source@) ==> (r matches Err(
            ContractError::MappingNotFound { source_addr },
        ) && source_addr@ == source@),
{
    match find_pair(&state.forward, source) {
        Some(i) => {
            proof {
                lemma_table_index(pairs(state.forward@), i as int);
            }
            Ok(state.forward[i].1.clone())
        },
        None => {
            proof {
                lemma_table_absent(pairs(state.forward@), source@);
            }
            Err(ContractError::MappingNotFound { source_addr: source.clone() })
        },
    }
}

/// The source collection of a destination collection.
pub fn resolve_source(state: &BridgeState, destination: &String) -> (r: Result<String, ContractError>)
    requires
        state.wf(),
    ensures
        state.reverse_map().contains_key(destination@) ==> (r matches Ok(s) && s@
            == state.reverse_map()[destination@]),
        !state.reverse_map().contains_key(destination@) ==> (r matches Err(
            ContractError::MappingNotFound { source_addr },
        ) && source_addr@ == destination@),
{
    match find_pair(&state.reverse, destination) {
        Some(i) => {
            proof {
                lemma_table_index(pairs(state.reverse@), i as int);
            }
            Ok(state.reverse[i].1.clone())
        },
        None => {
            proof {
                lemma_table_absent(pairs(state.reverse@), destination@);
            }
            Err(ContractError::MappingNotFound { source_addr: destination.clone() })
        },
    }
}

} // verus!
