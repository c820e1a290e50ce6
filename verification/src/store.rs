use vstd::prelude::*;

use crate::todo::{has_id, unique_ids, views_of, Todo, TodoView};

verus! {

/// The ways a storage operation can fail.
#[derive(Clone, Copy, Debug, PartialEq, Eq, Structural)]
pub enum StoreError {
    /// A row with the given identifier already exists (the identifier
    /// column is a key, so inserting it again violates the constraint).
    Duplicate,
    /// No row carries the given identifier.
    NotFound,
    /// The database could not be reached. The in-memory model below never
    /// produces this; an adapter over a real database maps its connection
    /// failures to it, and the handler logic consumes it.
    Connection,
}

/// A model of the relational table backing the to-do records: the rows in
/// natural storage order, with the identifier as key.
///
/// The four data-access operations of the entity store are stated and
/// proved against this model; a program that keeps its rows in a real
/// database gets the same contracts at the handler level by mapping each
/// operation onto one SQL statement with these semantics.
pub struct TodoStore {
    rows: Vec<Todo>,
}

impl View for TodoStore {
    type V = Seq<TodoView>;

    closed spec fn view(&self) -> Seq<TodoView> {
        views_of(self.rows@)
    }
}

impl TodoStore {
    /// The table's invariant: the identifier column is a key.
    pub open spec fn wf(&self) -> bool {
        unique_ids(self@)
    }

    /// An empty table.
    pub fn new() -> (r: TodoStore)
        ensures
            r@ == Seq::<TodoView>::empty(),
            r.wf(),
    {
        let r = TodoStore { rows: Vec::new() };
        proof {
            assert(r@ =~= Seq::<TodoView>::empty());
        }
        r
    }

    /// How many rows the table holds.
    pub fn len(&self) -> (n: usize)
        ensures
            n == self@.len(),
    {
        self.rows.len()
    }

    /// Index of the row carrying the identifier, if any.
    fn index_of(&self, id: u128) -> (r: Option<usize>)
        ensures
            match r {
                Some(i) => i < self@.len() && self@[i as int].uuid == id,
                None => !has_id(self@, id),
            },
    {
        let mut i: usize = 0;
        while i < self.rows.len()
            invariant
                i <= self.rows.len(),
                forall|j: int| 0 <= j < i ==> self@[j].uuid != id,
            decreases self.rows.len() - i,
        {
            if self.rows[i].uuid == id {
                return Some(i);
            }
            i += 1;
        }
        None
    }

    /// Writes a new row with the record's identifier and description;
    /// fails with a storage error, leaving the table unchanged, when a row
    /// with that identifier already exists.
    pub fn insert(&mut self, t: &Todo) -> (r: Result<(), StoreError>)
        requires
            old(self).wf(),
        ensures
            final(self).wf(),
            r == (if has_id(old(self)@, t@.uuid) {
                Err::<(), StoreError>(StoreError::Duplicate)
            } else {
                Ok::<(), StoreError>(())
            }),
            r is Ok ==> final(self)@ == old(self)@.push(t@),
            r is Err ==> final(self)@ == old(self)@,
    {
        match self.index_of(t.uuid) {
            Some(i) => {
                proof {
                    assert(has_id(self@, t.uuid)) by {
                        assert(self@[i as int].uuid == t.uuid);
                    }
                }
                Err(StoreError::Duplicate)
            },
            None => {
                let row = t.duplicate();
                self.rows.push(row);
                proof {
                    assert(self@ =~= old(self)@.push(t@));
                    crate::todo::lemma_push_fresh_keeps_unique(old(self)@, t@);
                }
                Ok(())
            },
        }
    }

    /// Overwrites the description of the row carrying the record's
    /// identifier and reports one affected row; affects zero rows and
    /// leaves the table unchanged when the identifier is absent — the
    /// caller must check the count to detect a missing record.
    pub fn update(&mut self, t: &Todo) -> (n: u64)
        requires
            old(self).wf(),
        ensures
            final(self).wf(),
            n == (if has_id(old(self)@, t@.uuid) {
                1u64
            } else {
                0u64
            }),
            n == 1 ==> (exists|i: int|
                0 <= i < old(self)@.len() && old(self)@[i].uuid == t@.uuid && final(self)@ == old(
                    self,
                )@.update(i, t@)),
            n == 0 ==> final(self)@ == old(self)@,
    {
        match self.index_of(t.uuid) {
            Some(i) => {
                let row = t.duplicate();
                self.rows.set(i, row);
                proof {
                    let ghost s0 = old(self)@;
                    assert(self@ =~= s0.update(i as int, t@));
                    assert(has_id(s0, t@.uuid)) by {
                        assert(s0[i as int].uuid == t@.uuid);
                    }
                    assert(final(self).wf()) by {
                        let s = s0.update(i as int, t@);
                        assert forall|a: int, b: int| 0 <= a < b < s.len() implies s[a].uuid
                            != s[b].uuid by {
                            assert(s[a].uuid == s0[a].uuid);
                            assert(s[b].uuid == s0[b].uuid);
                        }
                    }
                }
                1
            },
            None => 0,
        }
    }

    /// Returns all rows, in natural storage order, as a snapshot.
    pub fn list_all(&self) -> (r: Vec<Todo>)
        ensures
            views_of(r@) == self@,
    {
        let mut out: Vec<Todo> = Vec::new();
        let mut i: usize = 0;
        while i < self.rows.len()
            invariant
                i <= self.rows.len(),
                views_of(out@) == self@.subrange(0, i as int),
            decreases self.rows.len() - i,
        {
            let ghost pre = out@;
            let t = self.rows[i].duplicate();
            out.push(t);
            proof {
                assert(out@ == pre.push(t));
                assert(views_of(pre).len() == pre.len());
                assert(pre.len() == i);
                assert(views_of(out@) =~= self@.subrange(0, i + 1 as int));
            }
            i += 1;
        }
        proof {
            assert(self@.subrange(0, self.rows.len() as int) =~= self@);
        }
        out
    }

    /// Returns the single row carrying the identifier; fails with a
    /// not-found error when no row carries it.
    pub fn find_by_id(&self, id: u128) -> (r: Result<Todo, StoreError>)
        requires
            self.wf(),
        ensures
            match r {
                Ok(t) => has_id(self@, id) && t@.uuid == id && self@.contains(t@),
                Err(e) => e == StoreError::NotFound && !has_id(self@, id),
            },
    {
        match self.index_of(id) {
            Some(i) => {
                let t = self.rows[i].duplicate();
                proof {
                    assert(has_id(self@, id)) by {
                        assert(self@[i as int].uuid == id);
                    }
                    assert(self@.contains(t@)) by {
                        assert(self@[i as int] == t@);
                    }
                }
                Ok(t)
            },
            None => Err(StoreError::NotFound),
        }
    }

    /// Removes the row carrying the identifier and reports how many rows
    /// were affected; deleting an absent identifier succeeds with zero
    /// rows affected — deletion is idempotent.
    pub fn delete(&mut self, id: u128) -> (n: u64)
        requires
            old(self).wf(),
        ensures
            final(self).wf(),
            !has_id(final(self)@, id),
            n == (if has_id(old(self)@, id) {
                1u64
            } else {
                0u64
            }),
            n == 1 ==> (exists|i: int|
                0 <= i < old(self)@.len() && old(self)@[i].uuid == id && final(self)@ == old(
                    self,
                )@.remove(i)),
            n == 0 ==> final(self)@ == old(self)@,
    {
        match self.index_of(id) {
            Some(i) => {
                self.rows.remove(i);
                proof {
                    let ghost s0 = old(self)@;
                    assert(self@ =~= s0.remove(i as int));
                    assert(has_id(s0, id)) by {
                        assert(s0[i as int].uuid == id);
                    }
                    let s = s0.remove(i as int);
                    assert(final(self).wf()) by {
                        assert forall|a: int, b: int| 0 <= a < b < s.len() implies s[a].uuid
                            != s[b].uuid by {
                            crate::todo::lemma_remove_index(s0, i as int, a);
                            crate::todo::lemma_remove_index(s0, i as int, b);
                        }
                    }
                    assert(!has_id(s, id)) by {
                        assert forall|a: int| 0 <= a < s.len() implies s[a].uuid != id by {
                            crate::todo::lemma_remove_index(s0, i as int, a);
                        }
                    }
                }
                1
            },
            None => 0,
        }
    }
}

} // verus!
