use vstd::prelude::*;

verus! {

/// A to-do record: a unique identifier and a free-text description.
///
/// The identifier is carried as the 128-bit value of a UUID; the
/// description may be empty or arbitrary text.
#[derive(Clone, Debug, PartialEq, Eq)]
pub struct Todo {
    pub uuid: u128,
    pub name: String,
}

/// The mathematical value of a to-do record.
pub ghost struct TodoView {
    pub uuid: u128,
    pub name: Seq<char>,
}

impl View for Todo {
    type V = TodoView;

    open spec fn view(&self) -> TodoView {
        TodoView { uuid: self.uuid, name: self.name@ }
    }
}

/// The mathematical values of a sequence of records.
pub open spec fn views_of(s: Seq<Todo>) -> Seq<TodoView> {
    s.map_values(|t: Todo| t@)
}

/// Does some record in the sequence carry this identifier?
pub open spec fn has_id(s: Seq<TodoView>, id: u128) -> bool {
    exists|i: int| 0 <= i < s.len() && s[i].uuid == id
}

/// No two records in the sequence carry the same identifier.
pub open spec fn unique_ids(s: Seq<TodoView>) -> bool {
    forall|i: int, j: int| 0 <= i < j < s.len() ==> s[i].uuid != s[j].uuid
}

/// Appending a record under a fresh identifier keeps identifiers unique.
pub proof fn lemma_push_fresh_keeps_unique(s: Seq<TodoView>, x: TodoView)
    requires
        unique_ids(s),
        !has_id(s, x.uuid),
    ensures
        unique_ids(s.push(x)),
{
    let s2 = s.push(x);
    assert forall|i: int, j: int| 0 <= i < j < s2.len() implies s2[i].uuid != s2[j].uuid by {
        if j == s2.len() - 1 {
            assert(s2[i] == s[i]);
        }
    }
}

/// Each record but the removed one keeps its place (shifted past the gap).
pub proof fn lemma_remove_index(s: Seq<TodoView>, i: int, a: int)
    requires
        0 <= i < s.len(),
        0 <= a < s.len() - 1,
    ensures
        s.remove(i)[a] == (if a < i {
            s[a]
        } else {
            s[a + 1]
        }),
{
}

impl Todo {
    /// Builds a record from an identifier and a description.
    pub fn new(uuid: u128, name: String) -> (r: Todo)
        ensures
            r@ == (TodoView { uuid, name: name@ }),
    {
        Todo { uuid, name }
    }

    /// Returns a copy of the record with the same identifier and description.
    pub fn duplicate(&self) -> (r: Todo)
        ensures
            r@ == self@,
    {
        Todo { uuid: self.uuid, name: self.name.clone() }
    }
}

} // verus!
