//! The mathematical model of the task repository.
//!
//! Executable repository state is viewed as a [`DbV`]: a sequence of user
//! rows, a sequence of task rows, and the next task id the storage will
//! assign. Every contract in the crate speaks in terms of these views and of
//! the spec functions below.

use vstd::prelude::*;

verus! {

/// One stored user row: a stable unique id, a username, and the credential
/// it is matched against (compared by exact match).
pub struct UserV {
    pub user_id: int,
    pub username: Seq<char>,
    pub password: Seq<char>,
}

/// A task as callers see it: the owner is not part of the public shape.
pub struct TaskV {
    pub task_id: int,
    pub title: Seq<char>,
    pub description: Seq<char>,
}

/// One stored task row, including the owning user's id.
pub struct TaskRecordV {
    pub task_id: int,
    pub user_id: int,
    pub title: Seq<char>,
    pub description: Seq<char>,
}

/// The whole repository: user rows, task rows, and the id the next created
/// task will receive.
pub struct DbV {
    pub users: Seq<UserV>,
    pub tasks: Seq<TaskRecordV>,
    pub next_task_id: int,
}

/// The public image of a stored task row.
pub open spec fn public_task(t: TaskRecordV) -> TaskV {
    TaskV { task_id: t.task_id, title: t.title, description: t.description }
}

/// The user rows in `users` whose username and credential both match exactly.
pub open spec fn matching_in(users: Seq<UserV>, username: Seq<char>, password: Seq<char>) -> Seq<
    UserV,
> {
    users.filter(|u: UserV| u.username == username && u.password == password)
}

/// The user rows whose username and credential both match exactly.
pub open spec fn matching_users(db: DbV, username: Seq<char>, password: Seq<char>) -> Seq<UserV> {
    matching_in(db.users, username, password)
}

/// The task rows in `tasks` owned by `user_id`, in storage order.
pub open spec fn owned_in(tasks: Seq<TaskRecordV>, user_id: int) -> Seq<TaskRecordV> {
    tasks.filter(|t: TaskRecordV| t.user_id == user_id)
}

/// The task rows owned by `user_id`, in storage order.
pub open spec fn owned_tasks(db: DbV, user_id: int) -> Seq<TaskRecordV> {
    owned_in(db.tasks, user_id)
}

/// The tasks owned by `user_id`, in their public shape and storage order.
pub open spec fn tasks_of(db: DbV, user_id: int) -> Seq<TaskV> {
    owned_tasks(db, user_id).map_values(|t: TaskRecordV| public_task(t))
}

/// Whether some user row carries this id.
pub open spec fn has_user(db: DbV, user_id: int) -> bool {
    exists|i: int| 0 <= i < db.users.len() && db.users[i].user_id == user_id
}

/// Whether any task row at all carries this title (global, across owners).
pub open spec fn title_taken(db: DbV, title: Seq<char>) -> bool {
    exists|i: int| 0 <= i < db.tasks.len() && db.tasks[i].title == title
}

/// Whether a task row other than the one with id `task_id` carries this title.
pub open spec fn title_taken_by_other(db: DbV, title: Seq<char>, task_id: int) -> bool {
    exists|i: int|
        0 <= i < db.tasks.len() && db.tasks[i].title == title && db.tasks[i].task_id != task_id
}

/// Whether a task row with this id exists and is owned by `user_id`.
pub open spec fn has_task(db: DbV, task_id: int, user_id: int) -> bool {
    exists|i: int|
        0 <= i < db.tasks.len() && db.tasks[i].task_id == task_id && db.tasks[i].user_id == user_id
}

/// The storage invariant.
///
/// User ids are unique; task rows are strictly ascending by task id (so task
/// ids are unique and listings come out in a stable order); titles are
/// non-empty and globally unique; every task's owner is an existing user;
/// every assigned task id lies below `next_task_id`.
pub open spec fn db_wf(db: DbV) -> bool {
    &&& forall|i: int, j: int|
        0 <= i < j < db.users.len() ==> db.users[i].user_id != db.users[j].user_id
    &&& forall|i: int, j: int|
        0 <= i < j < db.tasks.len() ==> db.tasks[i].task_id < db.tasks[j].task_id
    &&& forall|i: int, j: int|
        0 <= i < j < db.tasks.len() ==> db.tasks[i].title != db.tasks[j].title
    &&& forall|i: int| 0 <= i < db.tasks.len() ==> db.tasks[i].task_id < db.next_task_id
    &&& forall|i: int| 0 <= i < db.tasks.len() ==> has_user(db, db.tasks[i].user_id)
    &&& forall|i: int| 0 <= i < db.tasks.len() ==> db.tasks[i].title.len() > 0
    &&& 1 <= db.next_task_id
}

/// The repository after a successful task creation: one row appended with
/// the id the storage had reserved, and the next id advanced.
pub open spec fn created_db(db: DbV, user_id: int, title: Seq<char>, description: Seq<char>) -> DbV {
    DbV {
        users: db.users,
        tasks: db.tasks.push(
            TaskRecordV { task_id: db.next_task_id, user_id, title, description },
        ),
        next_task_id: db.next_task_id + 1,
    }
}

/// Pushing an element onto a sequence filters to the old filtering, plus the
/// element when it satisfies the predicate.
pub proof fn lemma_filter_push<A>(s: Seq<A>, pred: spec_fn(A) -> bool, e: A)
    ensures
        pred(e) ==> s.push(e).filter(pred) == s.filter(pred).push(e),
        !pred(e) ==> s.push(e).filter(pred) == s.filter(pred),
{
    reveal(Seq::filter);
    assert(s.push(e).drop_last() =~= s);
    assert(s.push(e).last() == e);
}

/// How one more user row extends a credential match.
pub proof fn lemma_matching_in_push(
    users: Seq<UserV>,
    u: UserV,
    username: Seq<char>,
    password: Seq<char>,
)
    ensures
        u.username == username && u.password == password ==> matching_in(
            users.push(u),
            username,
            password,
        ) == matching_in(users, username, password).push(u),
        !(u.username == username && u.password == password) ==> matching_in(
            users.push(u),
            username,
            password,
        ) == matching_in(users, username, password),
{
    lemma_filter_push(users, |x: UserV| x.username == username && x.password == password, u);
}

/// How one more task row extends an ownership listing.
pub proof fn lemma_owned_in_push(tasks: Seq<TaskRecordV>, t: TaskRecordV, user_id: int)
    ensures
        t.user_id == user_id ==> owned_in(tasks.push(t), user_id) == owned_in(
            tasks,
            user_id,
        ).push(t),
        t.user_id != user_id ==> owned_in(tasks.push(t), user_id) == owned_in(tasks, user_id),
{
    lemma_filter_push(tasks, |x: TaskRecordV| x.user_id == user_id, t);
}

/// An ownership listing of rows strictly ascending by task id stays
/// strictly ascending.
pub proof fn lemma_owned_in_ascending(tasks: Seq<TaskRecordV>, user_id: int)
    requires
        forall|i: int, j: int| 0 <= i < j < tasks.len() ==> tasks[i].task_id < tasks[j].task_id,
    ensures
        forall|i: int, j: int|
            0 <= i < j < owned_in(tasks, user_id).len() ==> owned_in(tasks, user_id)[i].task_id
                < owned_in(tasks, user_id)[j].task_id,
{
    lemma_filter_keeps_ascending(tasks, |x: TaskRecordV| x.user_id == user_id);
}

/// Every row of an ownership listing occurs among the stored rows.
pub proof fn lemma_owned_in_element_from(tasks: Seq<TaskRecordV>, user_id: int, j: int)
    requires
        0 <= j < owned_in(tasks, user_id).len(),
    ensures
        exists|i: int| 0 <= i < tasks.len() && tasks[i] == owned_in(tasks, user_id)[j],
{
    lemma_filter_element_from(tasks, |x: TaskRecordV| x.user_id == user_id, j);
}

/// Mapping a function over a sequence commutes with pushing an element.
pub proof fn lemma_map_values_push<A, B>(s: Seq<A>, f: spec_fn(A) -> B, x: A)
    ensures
        s.push(x).map_values(f) == s.map_values(f).push(f(x)),
{
    assert(s.push(x).map_values(f) =~= s.map_values(f).push(f(x)));
}

/// Every element of a filtering occurs in the original sequence.
pub proof fn lemma_filter_element_from<A>(s: Seq<A>, pred: spec_fn(A) -> bool, j: int)
    requires
        0 <= j < s.filter(pred).len(),
    ensures
        exists|i: int| 0 <= i < s.len() && s[i] == s.filter(pred)[j],
    decreases s.len(),
{
    reveal(Seq::filter);
    if s.len() > 0 {
        let rest = s.drop_last();
        if j < rest.filter(pred).len() {
            lemma_filter_element_from(rest, pred, j);
            let i = choose|i: int| 0 <= i < rest.len() && rest[i] == rest.filter(pred)[j];
            assert(s[i] == s.filter(pred)[j]);
        } else {
            assert(s[s.len() - 1] == s.filter(pred)[j]);
        }
    }
}

/// Filtering a sequence of task rows that is strictly ascending by task id
/// yields a sequence that is strictly ascending by task id.
pub proof fn lemma_filter_keeps_ascending(s: Seq<TaskRecordV>, pred: spec_fn(TaskRecordV) -> bool)
    requires
        forall|i: int, j: int| 0 <= i < j < s.len() ==> s[i].task_id < s[j].task_id,
    ensures
        forall|i: int, j: int|
            0 <= i < j < s.filter(pred).len() ==> s.filter(pred)[i].task_id < s.filter(
                pred,
            )[j].task_id,
    decreases s.len(),
{
    reveal(Seq::filter);
    if s.len() > 0 {
        let rest = s.drop_last();
        lemma_filter_keeps_ascending(rest, pred);
        let f = s.filter(pred);
        let fr = rest.filter(pred);
        assert forall|i: int, j: int| 0 <= i < j < f.len() implies f[i].task_id < f[j].task_id by {
            if j < fr.len() {
                assert(f[i] == fr[i] && f[j] == fr[j]);
            } else {
                assert(f[j] == s.last());
                lemma_filter_element_from(rest, pred, i);
                let k = choose|k: int| 0 <= k < rest.len() && rest[k] == fr[i];
                assert(s[k] == f[i]);
                assert(s[k].task_id < s[s.len() - 1].task_id);
            }
        }
    }
}

} // verus!
