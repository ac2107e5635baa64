//! Membership and pause checks, and the address-list steps of the authority updates.
use vstd::prelude::*;
use crate::msg::{addr_text, addr_texts, all_valid, first_invalid, CheckedAddr};
use crate::state::{find_flag, flags, ids, contains_id, BridgeState};
use crate::table::{lemma_table_absent, lemma_table_index};

verus! {

/// Whether the collection is paused, by the global flag or by its own override.
pub fn check_is_paused(state: &BridgeState, coll_addr: &String) -> (r: bool)
    requires
        state.wf(),
    ensures
        r == state.is_paused(coll_addr@),
{
    if state.paused {
        return true;
    }
    match find_flag(&state.collection_paused, coll_addr) {
        Some(i) => {
            proof {
                lemma_table_index(flags(state.collection_paused@), i as int);
            }
            state.collection_paused[i].1
        },
        None => {
            proof {
                lemma_table_absent(flags(state.collection_paused@), coll_addr@);
            }
            false
        },
    }
}

/// Whether `sender` is an operator or an admin.
pub fn check_is_operator(state: &BridgeState, sender: &String) -> (r: bool)
    ensures
        r == state.is_operator_or_admin(sender@),
{
    if !contains_id(&state.operators, sender) {
        return check_is_admin(state, sender);
    }
    true
}

/// Whether `sender` is an admin.
pub fn check_is_admin(state: &BridgeState, sender: &String) -> (r: bool)
    ensures
        r == state.is_admin(sender@),
{
    contains_id(&state.admins, sender)
}

/// A copy of a list of addresses.
pub fn copy_ids(v: &Vec<String>) -> (r: Vec<String>)
    ensures
        ids(r@) == ids(v@),
{
    let mut r: Vec<String> = Vec::new();
    let mut i: usize = 0;
    while i < v.len()
        invariant
            i <= v.len(),
            ids(r@) == ids(v@).take(i as int),
        decreases v.len() - i,
    {
        let ghost before = r@;
        r.push(v[i].clone());
        assert(ids(r@) =~= ids(before).push(v@[i as int]@));
        assert(ids(v@).take(i + 1) =~= ids(v@).take(i as int).push(v@[i as int]@));
        i = i + 1;
    }
    assert(ids(v@).take(v.len() as int) =~= ids(v@));
    r
}

/// Whether the two lists hold the same addresses in the same order.
pub fn same_ids(a: &Vec<String>, b: &Vec<String>) -> (r: bool)
    ensures
        r == (ids(a@) == ids(b@)),
{
    if a.len() != b.len() {
        assert(ids(a@).len() != ids(b@).len());
        return false;
    }
    let mut i: usize = 0;
    while i < a.len()
        invariant
            i <= a.len(),
            a.len() == b.len(),
            forall|j: int| 0 <= j < i ==> a@[j]@ == b@[j]@,
        decreases a.len() - i,
    {
        if !(a[i] == b[i]) {
            assert(ids(a@)[i as int] != ids(b@)[i as int]);
            return false;
        }
        i = i + 1;
    }
    assert(ids(a@) =~= ids(b@));
    true
}

/// The text of the first address of the list that the host refused, if any.
pub fn first_invalid_of(v: &Vec<CheckedAddr>) -> (r: Option<String>)
    ensures
        r is None <==> all_valid(v@),
        r matches Some(a) ==> first_invalid(v@, a@),
{
    let mut i: usize = 0;
    while i < v.len()
        invariant
            i <= v.len(),
            forall|j: int| 0 <= j < i ==> (#[trigger] v@[j]) is Ok,
        decreases v.len() - i,
    {
        if let Err(a) = &v[i] {
            let r = a.clone();
            assert(addr_text(v@[i as int]) == r@);
            return Some(r);
        }
        i = i + 1;
    }
    None
}

/// Whether the text `x` is among those of the list.
pub fn contains_text(v: &Vec<CheckedAddr>, x: &String) -> (r: bool)
    ensures
        r == addr_texts(v@).contains(x@),
{
    let mut i: usize = 0;
    while i < v.len()
        invariant
            i <= v.len(),
            forall|j: int| 0 <= j < i ==> addr_text(#[trigger] v@[j]) != x@,
        decreases v.len() - i,
    {
        let hit = match &v[i] {
            Ok(a) => *a == *x,
            Err(a) => *a == *x,
        };
        if hit {
            assert(addr_texts(v@)[i as int] == x@);
            return true;
        }
        i = i + 1;
    }
    assert forall|j: int| 0 <= j < addr_texts(v@).len() implies addr_texts(v@)[j] != x@ by {
        assert(addr_texts(v@)[j] == addr_text(v@[j]));
    }
    false
}

/// The validated forms of a list of addresses that the host all accepted.
pub fn valid_list(v: &Vec<CheckedAddr>) -> (r: Vec<String>)
    requires
        all_valid(v@),
    ensures
        ids(r@) == addr_texts(v@),
{
    let mut r: Vec<String> = Vec::new();
    let mut i: usize = 0;
    while i < v.len()
        invariant
            i <= v.len(),
            all_valid(v@),
            ids(r@) == addr_texts(v@).take(i as int),
        decreases v.len() - i,
    {
        assert(v@[i as int] is Ok);
        if let Ok(a) = &v[i] {
            let ghost before = r@;
            r.push(a.clone());
            assert(ids(r@) =~= ids(before).push(a@));
        }
        assert(addr_texts(v@).take(i + 1) =~= addr_texts(v@).take(i as int).push(
            addr_text(v@[i as int]),
        ));
        i = i + 1;
    }
    assert(addr_texts(v@).take(v.len() as int) =~= addr_texts(v@));
    r
}

/// The list with each of `a` appended, in order, unless it is already present.
pub open spec fn add_ids(l: Seq<Seq<char>>, a: Seq<Seq<char>>) -> Seq<Seq<char>>
    decreases a.len(),
{
    if a.len() == 0 {
        l
    } else {
        let p = add_ids(l, a.drop_last());
        if p.contains(a.last()) {
            p
        } else {
            p.push(a.last())
        }
    }
}

/// The list without any of `r`, order kept.
pub open spec fn remove_ids(l: Seq<Seq<char>>, r: Seq<Seq<char>>) -> Seq<Seq<char>> {
    l.filter(|x: Seq<char>| !r.contains(x))
}

/// Appends each accepted address of `adds` that is not yet in the list.
pub fn add_all(list: &mut Vec<String>, adds: &Vec<CheckedAddr>)
    requires
        all_valid(adds@),
    ensures
        ids(final(list)@) == add_ids(ids(old(list)@), addr_texts(adds@)),
{
    let ghost start = ids(list@);
    let mut i: usize = 0;
    while i < adds.len()
        invariant
            i <= adds.len(),
            all_valid(adds@),
            ids(list@) == add_ids(start, addr_texts(adds@).take(i as int)),
        decreases adds.len() - i,
    {
        assert(adds@[i as int] is Ok);
        let ghost texts = addr_texts(adds@).take(i + 1);
        assert(texts.drop_last() =~= addr_texts(adds@).take(i as int));
        assert(texts.last() == addr_text(adds@[i as int]));
        if let Ok(a) = &adds[i] {
            if !contains_id(list, a) {
                let ghost before = list@;
                list.push(a.clone());
                assert(ids(list@) =~= ids(before).push(a@));
            }
        }
        i = i + 1;
    }
    assert(addr_texts(adds@).take(adds.len() as int) =~= addr_texts(adds@));
}

/// The list without the addresses whose text is in `rems`.
pub fn remove_all(list: &Vec<String>, rems: &Vec<CheckedAddr>) -> (r: Vec<String>)
    ensures
        ids(r@) == remove_ids(ids(list@), addr_texts(rems@)),
{
    let ghost pred = |x: Seq<char>| !addr_texts(rems@).contains(x);
    let mut r: Vec<String> = Vec::new();
    let mut i: usize = 0;
    while i < list.len()
        invariant
            i <= list.len(),
            pred == (|x: Seq<char>| !addr_texts(rems@).contains(x)),
            ids(r@) == ids(list@).take(i as int).filter(pred),
        decreases list.len() - i,
    {
        let ghost pre = ids(list@).take(i + 1);
        assert(pre.drop_last() =~= ids(list@).take(i as int));
        assert(pre.last() == list@[i as int]@);
        proof {
            reveal(Seq::filter);
        }
        if !contains_text(rems, &list[i]) {
            let ghost before = r@;
            r.push(list[i].clone());
            assert(ids(r@) =~= ids(before).push(list@[i as int]@));
        }
        i = i + 1;
    }
    assert(ids(list@).take(list.len() as int) =~= ids(list@));
    r
}

} // verus!
