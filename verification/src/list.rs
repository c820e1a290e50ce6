use vstd::prelude::*;

use crate::ids::fresh_id;
use crate::todo::{has_id, unique_ids, views_of, Todo, TodoView};

verus! {

/// The in-memory to-do list: an ordered sequence of records whose
/// identifiers are pairwise distinct.
///
/// The running program keeps one value of this type behind a
/// mutual-exclusion guard; every operation here works on the value while
/// the guard is held, and `list` hands out a snapshot so that nothing
/// renders while holding it.
pub struct TodoList {
    v: Vec<Todo>,
}

impl View for TodoList {
    type V = Seq<TodoView>;

    closed spec fn view(&self) -> Seq<TodoView> {
        views_of(self.v@)
    }
}

impl TodoList {
    /// The list's invariant: identifiers are unique.
    pub open spec fn wf(&self) -> bool {
        unique_ids(self@)
    }

    /// An empty list.
    pub fn new() -> (r: TodoList)
        ensures
            r@ == Seq::<TodoView>::empty(),
            r.wf(),
    {
        let r = TodoList { v: Vec::new() };
        proof {
            assert(r@ =~= Seq::<TodoView>::empty());
        }
        r
    }

    /// How many records the list holds.
    pub fn len(&self) -> (n: usize)
        ensures
            n == self@.len(),
    {
        self.v.len()
    }

    /// Index of the record carrying the identifier, if any.
    fn index_of(&self, id: u128) -> (r: Option<usize>)
        ensures
            match r {
                Some(i) => i < self@.len() && self@[i as int].uuid == id,
                None => !has_id(self@, id),
            },
    {
        let mut i: usize = 0;
        while i < self.v.len()
            invariant
                i <= self.v.len(),
                forall|j: int| 0 <= j < i ==> self@[j].uuid != id,
            decreases self.v.len() - i,
        {
            if self.v[i].uuid == id {
                return Some(i);
            }
            i += 1;
        }
        None
    }

    /// Is a record with this identifier present?
    pub fn contains_id(&self, id: u128) -> (b: bool)
        ensures
            b == has_id(self@, id),
    {
        match self.index_of(id) {
            Some(i) => {
                proof {
                    assert(has_id(self@, id)) by {
                        assert(self@[i as int].uuid == id);
                    }
                }
                true
            },
            None => false,
        }
    }

    /// Appends a record under a caller-supplied identifier; refuses a
    /// duplicate identifier and leaves the list unchanged in that case.
    pub fn add_with_id(&mut self, id: u128, name: String) -> (ok: bool)
        requires
            old(self).wf(),
        ensures
            final(self).wf(),
            ok == !has_id(old(self)@, id),
            ok ==> final(self)@ == old(self)@.push((TodoView { uuid: id, name: name@ })),
            !ok ==> final(self)@ == old(self)@,
    {
        let ghost nm = name@;
        if self.contains_id(id) {
            false
        } else {
            self.v.push(Todo { uuid: id, name });
            proof {
                assert(self@ =~= old(self)@.push(TodoView { uuid: id, name: nm }));
                crate::todo::lemma_push_fresh_keeps_unique(
                    old(self)@,
                    TodoView { uuid: id, name: nm },
                );
            }
            true
        }
    }

    /// Generates a fresh identifier and appends a record with the given
    /// description. Returns the new identifier, or `None` in the one case
    /// where the generated identifier already occurs in the list; the list
    /// is then unchanged. An empty list always accepts the add: a drawn
    /// identifier can collide only with a record already present.
    pub fn add(&mut self, name: String) -> (r: Option<u128>)
        requires
            old(self).wf(),
        ensures
            final(self).wf(),
            match r {
                Some(id) => !has_id(old(self)@, id) && final(self)@ == old(self)@.push(
                    (TodoView { uuid: id, name: name@ }),
                ),
                None => final(self)@ == old(self)@ && old(self)@.len() > 0,
            },
    {
        let id: u128 = fresh_id();
        if self.add_with_id(id, name) {
            Some(id)
        } else {
            None
        }
    }

    /// Replaces, wholesale, the description of the record carrying the
    /// identifier; reports failure and leaves the list unchanged when no
    /// record carries it.
    pub fn update(&mut self, id: u128, name: String) -> (ok: bool)
        requires
            old(self).wf(),
        ensures
            final(self).wf(),
            ok == has_id(old(self)@, id),
            ok ==> (exists|i: int|
                0 <= i < old(self)@.len() && old(self)@[i].uuid == id && final(self)@ == old(
                    self,
                )@.update(i, (TodoView { uuid: id, name: name@ }))),
            !ok ==> final(self)@ == old(self)@,
    {
        let ghost nm = name@;
        match self.index_of(id) {
            Some(i) => {
                self.v.set(i, Todo { uuid: id, name });
                proof {
                    let ghost s0 = old(self)@;
                    assert(self@ =~= s0.update(i as int, TodoView { uuid: id, name: nm }));
                    assert(has_id(s0, id)) by {
                        assert(s0[i as int].uuid == id);
                    }
                    assert(final(self).wf()) by {
                        let s = s0.update(i as int, TodoView { uuid: id, name: nm });
                        assert forall|a: int, b: int| 0 <= a < b < s.len() implies s[a].uuid
                            != s[b].uuid by {
                            assert(s[a].uuid == s0[a].uuid);
                            assert(s[b].uuid == s0[b].uuid);
                        }
                    }
                }
                true
            },
            None => false,
        }
    }

    /// Removes the record carrying the identifier; absence is not an
    /// error, the list is simply left unchanged.
    pub fn remove(&mut self, id: u128)
        requires
            old(self).wf(),
        ensures
            final(self).wf(),
            !has_id(final(self)@, id),
            has_id(old(self)@, id) ==> (exists|i: int|
                0 <= i < old(self)@.len() && old(self)@[i].uuid == id && final(self)@ == old(
                    self,
                )@.remove(i)),
            !has_id(old(self)@, id) ==> final(self)@ == old(self)@,
    {
        match self.index_of(id) {
            Some(i) => {
                self.v.remove(i);
                proof {
                    let ghost s0 = old(self)@;
                    assert(self@ =~= s0.remove(i as int));
                    assert(has_id(s0, id)) by {
                        assert(s0[i as int].uuid == id);
                    }
                    let s = s0.remove(i as int);
                    assert(final(self).wf()) by {
                        assert forall|a: int, b: int| 0 <= a < b < s.len() implies s[a].uuid
                            != s[b].uuid by {
                            crate::todo::lemma_remove_index(s0, i as int, a);
                            crate::todo::lemma_remove_index(s0, i as int, b);
                        }
                    }
                    assert(!has_id(s, id)) by {
                        assert forall|a: int| 0 <= a < s.len() implies s[a].uuid != id by {
                            crate::todo::lemma_remove_index(s0, i as int, a);
                        }
                    }
                }
            },
            None => {},
        }
    }

    /// A snapshot of the whole list, insertion order preserved; taken so
    /// that the caller can release the guard before rendering.
    pub fn list(&self) -> (r: Vec<Todo>)
        ensures
            views_of(r@) == self@,
    {
        let mut out: Vec<Todo> = Vec::new();
        let mut i: usize = 0;
        while i < self.v.len()
            invariant
                i <= self.v.len(),
                views_of(out@) == self@.subrange(0, i as int),
            decreases self.v.len() - i,
        {
            let ghost pre = out@;
            let t = self.v[i].duplicate();
            out.push(t);
            proof {
                assert(out@ == pre.push(t));
                assert(views_of(pre).len() == pre.len());
                assert(pre.len() == i);
                assert(views_of(out@) =~= self@.subrange(0, i + 1 as int));
            }
            i += 1;
        }
        proof {
            assert(self@.subrange(0, self.v.len() as int) =~= self@);
        }
        out
    }
}

} // verus!
