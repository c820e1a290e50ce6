use vstd::prelude::*;

use crate::todo::{has_id, lemma_push_fresh_keeps_unique, unique_ids, TodoView};

verus! {

/// How many records in the sequence carry this identifier.
pub open spec fn count_id(s: Seq<TodoView>, id: u128) -> nat
    decreases s.len(),
{
    if s.len() == 0 {
        0
    } else {
        count_id(s.drop_last(), id) + (if s.last().uuid == id {
            1nat
        } else {
            0nat
        })
    }
}

/// How many records in the sequence carry this description.
pub open spec fn count_name(s: Seq<TodoView>, name: Seq<char>) -> nat
    decreases s.len(),
{
    if s.len() == 0 {
        0
    } else {
        count_name(s.drop_last(), name) + (if s.last().name == name {
            1nat
        } else {
            0nat
        })
    }
}

/// A sequence none of whose records carry the identifier counts zero for it.
proof fn lemma_no_id_counts_zero(s: Seq<TodoView>, id: u128)
    requires
        forall|i: int| 0 <= i < s.len() ==> s[i].uuid != id,
    ensures
        count_id(s, id) == 0,
    decreases s.len(),
{
    if s.len() > 0 {
        lemma_no_id_counts_zero(s.drop_last(), id);
    }
}

/// Adding a record under a fresh identifier and then listing shows it
/// exactly once: exactly one record carries the new identifier, that
/// record carries the added description, and identifiers stay unique.
/// When the description was not yet present, it too now occurs exactly
/// once.
pub proof fn lemma_add_then_list_once(s: Seq<TodoView>, id: u128, name: Seq<char>)
    requires
        unique_ids(s),
        !has_id(s, id),
    ensures
        count_id(s.push((TodoView { uuid: id, name })), id) == 1,
        s.push((TodoView { uuid: id, name })).last() == (TodoView { uuid: id, name }),
        unique_ids(s.push((TodoView { uuid: id, name }))),
        count_name(s, name) == 0 ==> count_name(s.push((TodoView { uuid: id, name })), name) == 1,
{
    let x = TodoView { uuid: id, name };
    let s2 = s.push(x);
    assert(s2.drop_last() =~= s);
    lemma_no_id_counts_zero(s, id);
    lemma_push_fresh_keeps_unique(s, x);
    if count_name(s, name) == 0 {
        assert(count_name(s2, name) == count_name(s, name) + 1);
    }
}

/// Each add in the series draws an identifier that is fresh at its turn:
/// neither a record of the list so far nor an earlier add of the series
/// carries it.
pub open spec fn each_fresh_at_its_turn(s: Seq<TodoView>, xs: Seq<TodoView>) -> bool {
    forall|k: int| 0 <= k < xs.len() ==> !has_id(s + xs.take(k), #[trigger] xs[k].uuid)
}

/// Any number of adds serialized by the guard, each under an identifier
/// fresh at its turn: the generated identifiers are pairwise distinct,
/// every record that was in the list is still in it and every added
/// record is in it — no lost update — and identifiers stay unique.
pub proof fn lemma_serialized_adds_all_kept(s: Seq<TodoView>, xs: Seq<TodoView>)
    requires
        unique_ids(s),
        each_fresh_at_its_turn(s, xs),
    ensures
        unique_ids(s + xs),
        forall|t: TodoView| s.contains(t) ==> (s + xs).contains(t),
        forall|k: int| 0 <= k < xs.len() ==> (s + xs).contains(#[trigger] xs[k]),
        forall|k: int, l: int| 0 <= k < l < xs.len() ==> xs[k].uuid != xs[l].uuid,
    decreases xs.len(),
{
    if xs.len() == 0 {
        assert(s + xs =~= s);
    } else {
        let xs2 = xs.drop_last();
        let x = xs.last();
        assert(each_fresh_at_its_turn(s, xs2)) by {
            assert forall|k: int| 0 <= k < xs2.len() implies !has_id(
                s + xs2.take(k),
                #[trigger] xs2[k].uuid,
            ) by {
                assert(xs2.take(k) =~= xs.take(k));
                assert(xs2[k] == xs[k]);
            }
        }
        lemma_serialized_adds_all_kept(s, xs2);
        assert(!has_id(s + xs2, x.uuid)) by {
            assert(!has_id(s + xs.take(xs.len() - 1), xs[xs.len() - 1].uuid));
            assert(xs.take(xs.len() - 1) =~= xs2);
        }
        lemma_push_fresh_keeps_unique(s + xs2, x);
        assert(s + xs =~= (s + xs2).push(x));
    }
    assert forall|t: TodoView| s.contains(t) implies (s + xs).contains(t) by {
        let i = choose|i: int| 0 <= i < s.len() && s[i] == t;
        assert((s + xs)[i] == t);
    }
    assert forall|k: int| 0 <= k < xs.len() implies (s + xs).contains(#[trigger] xs[k]) by {
        assert((s + xs)[s.len() + k] == xs[k]);
    }
    assert forall|k: int, l: int| 0 <= k < l < xs.len() implies xs[k].uuid != xs[l].uuid by {
        assert((s + xs)[s.len() + k] == xs[k]);
        assert((s + xs)[s.len() + l] == xs[l]);
    }
}

} // verus!
