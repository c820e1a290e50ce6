use vstd::prelude::*;

use crate::store::StoreError;
use crate::todo::Todo;

verus! {

/// The HTTP status sent when an operation went through.
pub const STATUS_OK: u16 = 200;

/// The HTTP status sent when storage reported an error on delete.
pub const STATUS_BAD_REQUEST: u16 = 400;

/// The HTTP status sent when an update names an absent identifier.
pub const STATUS_NOT_FOUND: u16 = 404;

/// What the list view renders: on success the rows as they came back, on
/// a storage error an empty list — the error is swallowed, never surfaced
/// to the client.
pub fn todos_for_render(r: Result<Vec<Todo>, StoreError>) -> (out: Vec<Todo>)
    ensures
        match r {
            Ok(v) => out == v,
            Err(_) => out@ == Seq::<Todo>::empty(),
        },
{
    match r {
        Ok(v) => v,
        Err(_) => {
            let out: Vec<Todo> = Vec::new();
            proof {
                assert(out@ =~= Seq::<Todo>::empty());
            }
            out
        },
    }
}

/// What the edit form renders: the found record, or nothing when the
/// lookup failed — an absent identifier gives an empty form, not an error
/// page.
pub fn edit_form_context(r: Result<Todo, StoreError>) -> (out: Option<Todo>)
    ensures
        match r {
            Ok(t) => out == Some(t),
            Err(_) => out is None,
        },
{
    match r {
        Ok(t) => Some(t),
        Err(_) => None,
    }
}

/// The status the delete route answers with: success when storage
/// succeeded — whether or not a row was affected, deletion is idempotent —
/// and a client-error status when storage failed.
pub fn delete_status(r: &Result<u64, StoreError>) -> (code: u16)
    ensures
        code == (if r is Ok {
            STATUS_OK
        } else {
            STATUS_BAD_REQUEST
        }),
{
    match r {
        Ok(_) => STATUS_OK,
        Err(_) => STATUS_BAD_REQUEST,
    }
}

/// The status the update route answers with: success when a record was
/// found and replaced, not-found when the identifier was absent.
pub fn update_status(found: bool) -> (code: u16)
    ensures
        code == (if found {
            STATUS_OK
        } else {
            STATUS_NOT_FOUND
        }),
{
    if found {
        STATUS_OK
    } else {
        STATUS_NOT_FOUND
    }
}

} // verus!
