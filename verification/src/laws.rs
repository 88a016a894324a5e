//! Laws relating the service operations to one another.
//!
//! Each proof function here states a property that spans several operations,
//! over the same spec functions their contracts use, so the property composes
//! with those contracts at every call site.

use vstd::prelude::*;

use crate::model::{
    created_db, db_wf, has_task, lemma_map_values_push, lemma_owned_in_element_from,
    lemma_owned_in_push, owned_in, public_task, tasks_of, title_taken, DbV, TaskRecordV, TaskV,
};
use crate::service::{data_response_v, resolved, user_response_v};
use crate::session::SessionInfo;

verus! {

/// Logging in and then reading the current state agree.
///
/// After a login binds a token `t` to an identity, resolving that token in
/// the resulting store yields exactly that identity, and the state envelope
/// built for it carries the same user id, username, and task list that the
/// login envelope carried.
pub proof fn lemma_login_then_current_state(
    sessions: Map<u64, SessionInfo>,
    db: DbV,
    t: u64,
    info: SessionInfo,
)
    ensures
        resolved(sessions.insert(t, info), Some(t)) == Some(info),
        data_response_v(db, resolved(sessions.insert(t, info), Some(t))) == user_response_v(
            db,
            info.user_id as int,
            info.username@,
            true,
            "User logged in!"@,
        ),
{
}

/// A caller who does not own a task can never mutate it.
///
/// When the row holding a task id is owned by someone else, no row matches
/// that id for the caller; by the contracts of `update_task`, `delete_task`,
/// `task_update`, and `task_delete`, the mutation is then reported as failed
/// and the storage is left exactly as it was.
pub proof fn lemma_foreign_owner_mutation_is_noop(db: DbV, k: int, caller: int)
    requires
        db_wf(db),
        0 <= k < db.tasks.len(),
        db.tasks[k].user_id != caller,
    ensures
        !has_task(db, db.tasks[k].task_id, caller),
{
    if has_task(db, db.tasks[k].task_id, caller) {
        let i = choose|i: int|
            0 <= i < db.tasks.len() && db.tasks[i].task_id == db.tasks[k].task_id
                && db.tasks[i].user_id == caller;
        if i < k {
            assert(db.tasks[i].task_id < db.tasks[k].task_id);
        } else if k < i {
            assert(db.tasks[k].task_id < db.tasks[i].task_id);
        }
    }
}

/// Title uniqueness is global, not per owner.
///
/// Once any owner has created a task under a title, that title is taken in
/// the resulting storage, whoever asks; by `create_task`'s contract a second
/// creation under the same title, by any owner, fails with `DuplicateTitle`
/// and changes nothing.
pub proof fn lemma_title_unique_across_owners(
    db: DbV,
    owner: int,
    title: Seq<char>,
    description: Seq<char>,
)
    ensures
        title_taken(created_db(db, owner, title, description), title),
{
    let db1 = created_db(db, owner, title, description);
    assert(db1.tasks[db1.tasks.len() - 1].title == title);
}

/// Logout is idempotent.
///
/// Once a token is revoked it resolves to nothing, and revoking it again
/// leaves the store untouched; by `logout`'s contract the second of two
/// consecutive logouts reports "already logged out" without erroring.
pub proof fn lemma_logout_idempotent(sessions: Map<u64, SessionInfo>, t: u64)
    ensures
        resolved(sessions.remove(t), Some(t)) is None,
        sessions.remove(t).remove(t) == sessions.remove(t),
{
    assert(sessions.remove(t).remove(t) =~= sessions.remove(t));
}

/// Creating a task and then reading the current state round-trips.
///
/// A successful creation appends to the owner's listing exactly one task
/// with the requested title and description, under the reserved id; that id
/// is distinct from every previously listed id, and no previously listed
/// task carries the new title. By `task_create`'s and `data`'s contracts, a
/// state read right after a successful creation shows exactly this listing.
pub proof fn lemma_create_round_trip(db: DbV, owner: int, title: Seq<char>, description: Seq<char>)
    requires
        db_wf(db),
        !title_taken(db, title),
    ensures
        ({
            let before = tasks_of(db, owner);
            let after = tasks_of(created_db(db, owner, title, description), owner);
            &&& after == before.push(
                (TaskV { task_id: db.next_task_id, title, description }),
            )
            &&& forall|j: int| 0 <= j < before.len() ==> before[j].title != title
            &&& forall|j: int| 0 <= j < before.len() ==> before[j].task_id != db.next_task_id
        }),
{
    let rec = TaskRecordV { task_id: db.next_task_id, user_id: owner, title, description };
    lemma_owned_in_push(db.tasks, rec, owner);
    lemma_map_values_push(owned_in(db.tasks, owner), |t: TaskRecordV| public_task(t), rec);
    let before = tasks_of(db, owner);
    assert forall|j: int|
        0 <= j < before.len() implies before[j].title != title && before[j].task_id
        != db.next_task_id by {
        lemma_owned_in_element_from(db.tasks, owner, j);
        let i = choose|i: int|
            0 <= i < db.tasks.len() && db.tasks[i] == owned_in(db.tasks, owner)[j];
        assert(db.tasks[i].title != title);
        assert(db.tasks[i].task_id < db.next_task_id);
    }
}

} // verus!
