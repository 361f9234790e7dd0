//! Decision logic of the todo-list tool: what a finished database step
//! means — success, a task that was not there, or an update that touched
//! more rows than it should have. Talking to the database itself is foreign
//! code and stays outside the library; it hands the step's status and the
//! changed-row count in.

use vstd::prelude::*;

use crate::strutil::{chars_to_string, dec_of_int, push_dec_i128, push_str_chars};

verus! {

/// The status a finished database step reports.
pub const SQLITE_DONE: i32 = 101;

/// The message refusing an update that did not touch the named task.
pub open spec fn spec_update_missing(status: int) -> Seq<char> {
    "Task list not updated, perhaps the task does not exist? (status "@ + dec_of_int(status)
        + ")"@
}

/// The message refusing a delete whose status is not the finished one.
pub open spec fn spec_delete_status(status: int) -> Seq<char> {
    "Error from todo list, status "@ + dec_of_int(status)
}

/// What a completion update's outcome means: exactly one row must change.
pub fn update_outcome(status: i32, changes: i32) -> (r: Result<String, String>)
    ensures
        changes == 0 ==> (r matches Err(e) && e@ == spec_update_missing(status as int)),
        changes > 1 ==> (r matches Err(e) && e@
            == "More than one task was updated, this is not normally a good thing"@),
        !(changes == 0 || changes > 1) ==> (r matches Ok(m) && m@ == "Success"@),
{
    if changes == 0 {
        let mut m: Vec<char> = Vec::new();
        push_str_chars(&mut m, "Task list not updated, perhaps the task does not exist? (status ");
        push_dec_i128(&mut m, status as i128);
        push_str_chars(&mut m, ")");
        return Err(chars_to_string(&m));
    }
    if changes > 1 {
        return Err("More than one task was updated, this is not normally a good thing".to_owned());
    }
    Ok("Success".to_owned())
}

/// What a delete's outcome means: exactly one row must go, and the step
/// must have finished cleanly.
pub fn delete_outcome(status: i32, changes: i32) -> (r: Result<String, String>)
    ensures
        changes == 0 ==> (r matches Err(e) && e@
            == "Task list not updated: only completed tasks my be deleted from the todo list"@),
        changes > 1 && !(changes == 0) ==> (r matches Err(e) && e@
            == "It seems more than one task was deleted, this is not normally a good thing"@),
        !(changes == 0 || changes > 1) && status != SQLITE_DONE ==> (r matches Err(e) && e@
            == spec_delete_status(status as int)),
        !(changes == 0 || changes > 1) && status == SQLITE_DONE ==> (r matches Ok(m) && m@
            == "Success"@),
{
    if changes == 0 {
        return Err(
            "Task list not updated: only completed tasks my be deleted from the todo list".to_owned(),
        );
    }
    if changes > 1 {
        return Err(
            "It seems more than one task was deleted, this is not normally a good thing".to_owned(),
        );
    }
    if status != SQLITE_DONE {
        let mut m: Vec<char> = Vec::new();
        push_str_chars(&mut m, "Error from todo list, status ");
        push_dec_i128(&mut m, status as i128);
        return Err(chars_to_string(&m));
    }
    Ok("Success".to_owned())
}

} // verus!
