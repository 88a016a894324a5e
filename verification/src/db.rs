//! The task repository: durable CRUD for task records, with title
//! uniqueness, owner existence, and owner-matching enforced at the storage
//! boundary.
//!
//! The repository holds user rows and task rows directly and assigns task
//! ids itself, ascending from one. Update and delete touch a row only when
//! both the task id and the owning user id match, so a cross-owner mutation
//! is a silent no-op at this layer, independently of the service-layer
//! authorization check.

use vstd::prelude::*;
use vstd::string::StringExecFns;

use crate::model::{
    created_db, db_wf, has_task, has_user, lemma_matching_in_push, lemma_owned_in_ascending,
    matching_in, matching_users, tasks_of, title_taken, title_taken_by_other, DbV, TaskRecordV,
    TaskV, UserV,
};

verus! {

/// A provisioned user account. The credential is private to the storage
/// layer and is only ever compared by exact match.
pub struct User {
    pub user_id: i64,
    pub username: String,
    pub password: String,
}

impl View for User {
    type V = UserV;

    open spec fn view(&self) -> UserV {
        UserV { user_id: self.user_id as int, username: self.username@, password: self.password@ }
    }
}

/// A task in its public shape: the owning user id never leaves the storage
/// layer.
#[derive(Debug)]
pub struct Task {
    pub task_id: i64,
    pub title: String,
    pub description: String,
}

impl View for Task {
    type V = TaskV;

    open spec fn view(&self) -> TaskV {
        TaskV { task_id: self.task_id as int, title: self.title@, description: self.description@ }
    }
}

/// A stored task row, including its owner.
struct TaskRecord {
    task_id: i64,
    user_id: i64,
    title: String,
    description: String,
}

impl View for TaskRecord {
    type V = TaskRecordV;

    closed spec fn view(&self) -> TaskRecordV {
        TaskRecordV {
            task_id: self.task_id as int,
            user_id: self.user_id as int,
            title: self.title@,
            description: self.description@,
        }
    }
}

/// Why the storage refused a mutation. A missing row is not an error (update
/// and delete report it as `Ok(false)`); these are constraint violations.
#[derive(Clone, Copy, PartialEq, Eq, Debug)]
pub enum StorageError {
    /// The title was empty; every stored title must be non-empty.
    EmptyTitle,
    /// The title is already carried by some other task, whoever owns it.
    DuplicateTitle,
    /// The owning user id references no provisioned user.
    ForeignKeyViolation,
}

/// The views of a sequence of user rows.
spec fn user_views(users: Seq<User>) -> Seq<UserV> {
    users.map_values(|u: User| u@)
}

/// The views of a sequence of task rows.
spec fn task_views(tasks: Seq<TaskRecord>) -> Seq<TaskRecordV> {
    tasks.map_values(|t: TaskRecord| t@)
}

proof fn lemma_user_views_push(users: Seq<User>, u: User)
    ensures
        user_views(users.push(u)) == user_views(users).push(u@),
{
    assert(user_views(users.push(u)) =~= user_views(users).push(u@));
}

proof fn lemma_task_views_push(tasks: Seq<TaskRecord>, t: TaskRecord)
    ensures
        task_views(tasks.push(t)) == task_views(tasks).push(t@),
{
    assert(task_views(tasks.push(t)) =~= task_views(tasks).push(t@));
}

proof fn lemma_task_views_update(tasks: Seq<TaskRecord>, i: int, t: TaskRecord)
    requires
        0 <= i < tasks.len(),
    ensures
        task_views(tasks.update(i, t)) == task_views(tasks).update(i, t@),
{
    assert(task_views(tasks.update(i, t)) =~= task_views(tasks).update(i, t@));
}

proof fn lemma_task_views_remove(tasks: Seq<TaskRecord>, i: int)
    requires
        0 <= i < tasks.len(),
    ensures
        task_views(tasks.remove(i)) == task_views(tasks).remove(i),
{
    tasks.remove_ensures(i);
    task_views(tasks).remove_ensures(i);
    assert(task_views(tasks.remove(i)) =~= task_views(tasks).remove(i));
}

/// The repository as `reset` leaves it: three provisioned users and three
/// seeded tasks, the next task id being four.
pub open spec fn seeded_db() -> DbV {
    DbV {
        users: seq![
            (UserV { user_id: 0, username: "user0"@, password: "password0"@ }),
            (UserV { user_id: 1, username: "user1"@, password: "password1"@ }),
            (UserV { user_id: 2, username: "user2"@, password: "password2"@ }),
        ],
        tasks: seq![
            (TaskRecordV {
                task_id: 1,
                user_id: 1,
                title: "title 11"@,
                description: "description 11"@,
            }),
            (TaskRecordV {
                task_id: 2,
                user_id: 2,
                title: "title 21"@,
                description: "description 21"@,
            }),
            (TaskRecordV {
                task_id: 3,
                user_id: 2,
                title: "title 31"@,
                description: "description 31"@,
            }),
        ],
        next_task_id: 4,
    }
}

/// The seeded repository satisfies the storage invariant.
proof fn lemma_seeded_db_wf()
    ensures
        db_wf(seeded_db()),
{
    reveal_strlit("title 11");
    reveal_strlit("title 21");
    reveal_strlit("title 31");
    let db = seeded_db();
    assert(db.tasks[0].title[6] != db.tasks[1].title[6]);
    assert(db.tasks[0].title[6] != db.tasks[2].title[6]);
    assert(db.tasks[1].title[6] != db.tasks[2].title[6]);
    assert(has_user(db, 1)) by {
        assert(db.users[1].user_id == 1);
    }
    assert(has_user(db, 2)) by {
        assert(db.users[2].user_id == 2);
    }
}

/// The in-memory task storage: user rows, task rows, and the next task id.
pub struct UserTasksDB {
    users: Vec<User>,
    tasks: Vec<TaskRecord>,
    next_task_id: i64,
}

impl View for UserTasksDB {
    type V = DbV;

    closed spec fn view(&self) -> DbV {
        DbV {
            users: user_views(self.users@),
            tasks: task_views(self.tasks@),
            next_task_id: self.next_task_id as int,
        }
    }
}

impl UserTasksDB {
    /// The storage invariant, on this repository's view.
    pub open spec fn wf(&self) -> bool {
        db_wf(self@)
    }

    /// An empty repository; the first created task will get id one.
    pub fn new() -> (db: UserTasksDB)
        ensures
            db.wf(),
            db@.users == Seq::<UserV>::empty(),
            db@.tasks == Seq::<TaskRecordV>::empty(),
            db@.next_task_id == 1,
    {
        let db = UserTasksDB { users: Vec::new(), tasks: Vec::new(), next_task_id: 1 };
        proof {
            assert(db@.users =~= Seq::<UserV>::empty());
            assert(db@.tasks =~= Seq::<TaskRecordV>::empty());
        }
        db
    }

    /// Whether the storage can still assign a fresh task id, which
    /// `create_task` requires.
    pub fn has_capacity(&self) -> (r: bool)
        ensures
            r == (self@.next_task_id < i64::MAX),
    {
        self.next_task_id < i64::MAX
    }

    /// Drops everything and installs the seed data: users `user0`, `user1`,
    /// `user2` with their matching `password<n>` credentials, one task owned
    /// by `user1` and two owned by `user2`.
    pub fn reset(&mut self)
        ensures
            final(self).wf(),
            final(self)@ == seeded_db(),
    {
        let mut users: Vec<User> = Vec::new();
        users.push(
            User {
                user_id: 0,
                username: String::from_str("user0"),
                password: String::from_str("password0"),
            },
        );
        users.push(
            User {
                user_id: 1,
                username: String::from_str("user1"),
                password: String::from_str("password1"),
            },
        );
        users.push(
            User {
                user_id: 2,
                username: String::from_str("user2"),
                password: String::from_str("password2"),
            },
        );
        let mut tasks: Vec<TaskRecord> = Vec::new();
        tasks.push(
            TaskRecord {
                task_id: 1,
                user_id: 1,
                title: String::from_str("title 11"),
                description: String::from_str("description 11"),
            },
        );
        tasks.push(
            TaskRecord {
                task_id: 2,
                user_id: 2,
                title: String::from_str("title 21"),
                description: String::from_str("description 21"),
            },
        );
        tasks.push(
            TaskRecord {
                task_id: 3,
                user_id: 2,
                title: String::from_str("title 31"),
                description: String::from_str("description 31"),
            },
        );
        self.users = users;
        self.tasks = tasks;
        self.next_task_id = 4;
        proof {
            assert(self@.users =~= seeded_db().users);
            assert(self@.tasks =~= seeded_db().tasks);
            assert(self@ == seeded_db());
            lemma_seeded_db_wf();
        }
    }

    /// Provisions a user account, refusing a user id that is already taken.
    ///
    /// Usernames are deliberately not checked for uniqueness here: a
    /// credential pair matching more than one row must stay detectable
    /// downstream as an integrity violation rather than be assumed away.
    pub fn seed_user(&mut self, user_id: i64, username: String, password: String) -> (r: bool)
        requires
            old(self).wf(),
        ensures
            final(self).wf(),
            final(self)@.tasks == old(self)@.tasks,
            final(self)@.next_task_id == old(self)@.next_task_id,
            ({
                if has_user(old(self)@, user_id as int) {
                    !r && final(self)@ == old(self)@
                } else {
                    r && final(self)@.users == old(self)@.users.push(
                        (UserV {
                            user_id: user_id as int,
                            username: username@,
                            password: password@,
                        }),
                    )
                }
            }),
    {
        if self.user_id_exists(user_id) {
            return false;
        }
        let u = User { user_id, username, password };
        let ghost gu = u;
        self.users.push(u);
        proof {
            lemma_user_views_push(old(self).users@, gu);
            let db0 = old(self)@;
            let db1 = self@;
            assert forall|i: int| 0 <= i < db1.tasks.len() implies has_user(
                db1,
                db1.tasks[i].user_id,
            ) by {
                assert(has_user(db0, db0.tasks[i].user_id));
                let k = choose|k: int|
                    0 <= k < db0.users.len() && db0.users[k].user_id == db0.tasks[i].user_id;
                assert(db1.users[k].user_id == db1.tasks[i].user_id);
            }
            assert forall|i: int, j: int|
                0 <= i < j < db1.users.len() implies db1.users[i].user_id
                != db1.users[j].user_id by {
                if j < db0.users.len() {
                    assert(db0.users[i].user_id != db0.users[j].user_id);
                } else {
                    assert(db1.users[i] == db0.users[i]);
                    if db0.users[i].user_id == user_id as int {
                        assert(has_user(db0, user_id as int));
                    }
                }
            }
            assert(db1.tasks == db0.tasks);
            assert forall|i: int, j: int|
                0 <= i < j < db1.tasks.len() implies db1.tasks[i].task_id
                < db1.tasks[j].task_id by {
                assert(db0.tasks[i].task_id < db0.tasks[j].task_id);
            }
            assert forall|i: int, j: int|
                0 <= i < j < db1.tasks.len() implies db1.tasks[i].title != db1.tasks[j].title by {
                assert(db0.tasks[i].title != db0.tasks[j].title);
            }
            assert forall|i: int|
                0 <= i < db1.tasks.len() implies db1.tasks[i].task_id < db1.next_task_id by {
                assert(db0.tasks[i].task_id < db0.next_task_id);
            }
            assert forall|i: int| 0 <= i < db1.tasks.len() implies db1.tasks[i].title.len() > 0 by {
                assert(db0.tasks[i].title.len() > 0);
            }
        }
        true
    }

    /// Whether some provisioned user carries this id.
    fn user_id_exists(&self, user_id: i64) -> (r: bool)
        ensures
            r == has_user(self@, user_id as int),
    {
        let mut i: usize = 0;
        while i < self.users.len()
            invariant
                i <= self.users.len(),
                forall|k: int| 0 <= k < i ==> self@.users[k].user_id != user_id as int,
            decreases self.users.len() - i,
        {
            if self.users[i].user_id == user_id {
                assert(self@.users[i as int].user_id == user_id as int);
                return true;
            }
            i += 1;
        }
        false
    }

    /// Whether any stored task carries this title.
    fn title_exists(&self, title: &String) -> (r: bool)
        ensures
            r == title_taken(self@, title@),
    {
        let mut i: usize = 0;
        while i < self.tasks.len()
            invariant
                i <= self.tasks.len(),
                forall|k: int| 0 <= k < i ==> self@.tasks[k].title != title@,
            decreases self.tasks.len() - i,
        {
            if self.tasks[i].title == *title {
                assert(self@.tasks[i as int].title == title@);
                return true;
            }
            i += 1;
        }
        false
    }

    /// Whether a task other than the one with id `task_id` carries this title.
    fn title_exists_other(&self, title: &String, task_id: i64) -> (r: bool)
        ensures
            r == title_taken_by_other(self@, title@, task_id as int),
    {
        let mut i: usize = 0;
        while i < self.tasks.len()
            invariant
                i <= self.tasks.len(),
                forall|k: int|
                    0 <= k < i ==> !(self@.tasks[k].title == title@ && self@.tasks[k].task_id
                        != task_id as int),
            decreases self.tasks.len() - i,
        {
            if self.tasks[i].title == *title && self.tasks[i].task_id != task_id {
                assert(self@.tasks[i as int].title == title@ && self@.tasks[i as int].task_id
                    != task_id as int);
                return true;
            }
            i += 1;
        }
        false
    }

    /// The index of the task with this id and owner, if both match.
    fn find_task(&self, task_id: i64, user_id: i64) -> (r: Option<usize>)
        ensures
            match r {
                Some(i) => 0 <= i < self@.tasks.len() && self@.tasks[i as int].task_id
                    == task_id as int && self@.tasks[i as int].user_id == user_id as int,
                None => !has_task(self@, task_id as int, user_id as int),
            },
    {
        let mut i: usize = 0;
        while i < self.tasks.len()
            invariant
                i <= self.tasks.len(),
                forall|k: int|
                    0 <= k < i ==> !(self@.tasks[k].task_id == task_id as int
                        && self@.tasks[k].user_id == user_id as int),
            decreases self.tasks.len() - i,
        {
            if self.tasks[i].task_id == task_id && self.tasks[i].user_id == user_id {
                return Some(i);
            }
            i += 1;
        }
        None
    }

    /// All users matching the given credentials exactly, in provisioning
    /// order. Zero matches means bad credentials; more than one match means
    /// the storage lost username uniqueness.
    pub fn get_user_by_credentials(&self, username: &str, password: &str) -> (r: Vec<User>)
        ensures
            r@.map_values(|u: User| u@) == matching_users(self@, username@, password@),
    {
        let uname = String::from_str(username);
        let pword = String::from_str(password);
        let mut r: Vec<User> = Vec::new();
        let mut i: usize = 0;
        proof {
            assert(self@.users.take(0) =~= Seq::<UserV>::empty());
            assert(r@.map_values(|u: User| u@) =~= Seq::<UserV>::empty());
        }
        while i < self.users.len()
            invariant
                i <= self.users.len(),
                uname@ == username@,
                pword@ == password@,
                r@.map_values(|u: User| u@) == matching_in(
                    self@.users.take(i as int),
                    username@,
                    password@,
                ),
            decreases self.users.len() - i,
        {
            let ghost prefix = self@.users.take(i as int);
            let u = &self.users[i];
            if u.username == uname && u.password == pword {
                let copy = User {
                    user_id: u.user_id,
                    username: u.username.clone(),
                    password: u.password.clone(),
                };
                let ghost gcopy = copy;
                let ghost old_r = r@;
                r.push(copy);
                proof {
                    lemma_user_views_push(old_r, gcopy);
                    lemma_matching_in_push(prefix, self@.users[i as int], username@, password@);
                    assert(self@.users.take(i + 1 as int) =~= prefix.push(self@.users[i as int]));
                }
            } else {
                proof {
                    lemma_matching_in_push(prefix, self@.users[i as int], username@, password@);
                    assert(self@.users.take(i + 1 as int) =~= prefix.push(self@.users[i as int]));
                }
            }
            i += 1;
        }
        proof {
            assert(self@.users.take(self.users@.len() as int) =~= self@.users);
        }
        r
    }

    /// All tasks owned by `user_id`, in their public shape. The listing is
    /// deterministic: when the storage invariant holds it comes out in
    /// strictly ascending task-id order.
    pub fn get_tasks_by_user_id(&self, user_id: i64) -> (r: Vec<Task>)
        ensures
            r@.map_values(|t: Task| t@) == tasks_of(self@, user_id as int),
            self.wf() ==> forall|a: int, b: int|
                0 <= a < b < r@.len() ==> r@[a].task_id < r@[b].task_id,
    {
        let mut r: Vec<Task> = Vec::new();
        let mut i: usize = 0;
        proof {
            assert(self@.tasks.take(0) =~= Seq::<TaskRecordV>::empty());
            assert(r@.map_values(|t: Task| t@) =~= Seq::<TaskV>::empty());
        }
        while i < self.tasks.len()
            invariant
                i <= self.tasks.len(),
                r@.map_values(|t: Task| t@) == crate::model::owned_in(
                    self@.tasks.take(i as int),
                    user_id as int,
                ).map_values(|t: TaskRecordV| crate::model::public_task(t)),
            decreases self.tasks.len() - i,
        {
            let ghost prefix = self@.tasks.take(i as int);
            let t = &self.tasks[i];
            if t.user_id == user_id {
                let copy = Task {
                    task_id: t.task_id,
                    title: t.title.clone(),
                    description: t.description.clone(),
                };
                let ghost gcopy = copy;
                let ghost old_r = r@;
                r.push(copy);
                proof {
                    crate::model::lemma_owned_in_push(prefix, self@.tasks[i as int], user_id as int);
                    assert(self@.tasks.take(i + 1 as int) =~= prefix.push(self@.tasks[i as int]));
                    assert(old_r.push(gcopy).map_values(|t: Task| t@) =~= old_r.map_values(
                        |t: Task| t@,
                    ).push(gcopy@));
                    assert(crate::model::owned_in(self@.tasks.take(i + 1 as int), user_id as int)
                        .map_values(|t: TaskRecordV| crate::model::public_task(t)) =~= r@.map_values(
                        |t: Task| t@,
                    ));
                }
            } else {
                proof {
                    crate::model::lemma_owned_in_push(prefix, self@.tasks[i as int], user_id as int);
                    assert(self@.tasks.take(i + 1 as int) =~= prefix.push(self@.tasks[i as int]));
                }
            }
            i += 1;
        }
        proof {
            assert(self@.tasks.take(self.tasks@.len() as int) =~= self@.tasks);
            if self.wf() {
                lemma_owned_in_ascending(self@.tasks, user_id as int);
                let own = crate::model::owned_in(self@.tasks, user_id as int);
                assert forall|a: int, b: int|
                    0 <= a < b < r@.len() implies r@[a].task_id < r@[b].task_id by {
                    assert(r@.map_values(|t: Task| t@)[a] == tasks_of(self@, user_id as int)[a]);
                    assert(r@.map_values(|t: Task| t@)[b] == tasks_of(self@, user_id as int)[b]);
                    assert(r@[a]@.task_id == own[a].task_id);
                    assert(r@[b]@.task_id == own[b].task_id);
                    assert(own[a].task_id < own[b].task_id);
                }
            }
        }
        r
    }

    /// Creates a task owned by `user_id`, assigning the reserved next id.
    ///
    /// Fails with `EmptyTitle` on an empty title, with `DuplicateTitle` when
    /// any task at all already carries the title (global uniqueness, across
    /// owners), and with `ForeignKeyViolation` when no user carries
    /// `user_id`; the storage is untouched on every failure.
    pub fn create_task(&mut self, user_id: i64, title: String, description: String) -> (r: Result<
        Task,
        StorageError,
    >)
        requires
            old(self).wf(),
            old(self)@.next_task_id < i64::MAX,
        ensures
            final(self).wf(),
            ({
                let db0 = old(self)@;
                if title@.len() == 0 {
                    r == Err::<Task, StorageError>(StorageError::EmptyTitle) && final(self)@ == db0
                } else if title_taken(db0, title@) {
                    r == Err::<Task, StorageError>(StorageError::DuplicateTitle) && final(self)@
                        == db0
                } else if !has_user(db0, user_id as int) {
                    &&& r == Err::<Task, StorageError>(StorageError::ForeignKeyViolation)
                    &&& final(self)@ == db0
                } else {
                    &&& final(self)@ == created_db(db0, user_id as int, title@, description@)
                    &&& r matches Ok(t) && t@ == (TaskV {
                        task_id: db0.next_task_id,
                        title: title@,
                        description: description@,
                    })
                }
            }),
    {
        if title.as_str().is_empty() {
            return Err(StorageError::EmptyTitle);
        }
        if self.title_exists(&title) {
            return Err(StorageError::DuplicateTitle);
        }
        if !self.user_id_exists(user_id) {
            return Err(StorageError::ForeignKeyViolation);
        }
        let task_id = self.next_task_id;
        let rec = TaskRecord {
            task_id,
            user_id,
            title: title.clone(),
            description: description.clone(),
        };
        let ghost grec = rec;
        self.tasks.push(rec);
        self.next_task_id = task_id + 1;
        proof {
            lemma_task_views_push(old(self).tasks@, grec);
            let db0 = old(self)@;
            let db1 = self@;
            assert(db1 == created_db(db0, user_id as int, title@, description@));
            assert forall|i: int| 0 <= i < db1.tasks.len() implies has_user(
                db1,
                db1.tasks[i].user_id,
            ) by {
                if i < db0.tasks.len() {
                    assert(has_user(db0, db0.tasks[i].user_id));
                    let k = choose|k: int|
                        0 <= k < db0.users.len() && db0.users[k].user_id == db0.tasks[i].user_id;
                    assert(db1.users[k].user_id == db1.tasks[i].user_id);
                } else {
                    let k = choose|k: int|
                        0 <= k < db0.users.len() && db0.users[k].user_id == user_id as int;
                    assert(db1.users[k].user_id == db1.tasks[i].user_id);
                }
            }
        }
        Ok(Task { task_id, title, description })
    }

    /// Rewrites the title and description of the task with this id, but only
    /// when it is owned by `user_id`; reports `Ok(false)`, touching nothing,
    /// when no such row exists (a cross-owner attempt lands here). The new
    /// title must be non-empty and must not collide with any other task's
    /// title; the task id and owner are never changed.
    pub fn update_task(
        &mut self,
        task_id: i64,
        user_id: i64,
        title: String,
        description: String,
    ) -> (r: Result<bool, StorageError>)
        requires
            old(self).wf(),
        ensures
            final(self).wf(),
            final(self)@.users == old(self)@.users,
            final(self)@.next_task_id == old(self)@.next_task_id,
            ({
                let db0 = old(self)@;
                if !has_task(db0, task_id as int, user_id as int) {
                    r == Ok::<bool, StorageError>(false) && final(self)@ == db0
                } else if title@.len() == 0 {
                    r == Err::<bool, StorageError>(StorageError::EmptyTitle) && final(self)@ == db0
                } else if title_taken_by_other(db0, title@, task_id as int) {
                    r == Err::<bool, StorageError>(StorageError::DuplicateTitle) && final(self)@
                        == db0
                } else {
                    &&& r == Ok::<bool, StorageError>(true)
                    &&& final(self)@.tasks.len() == db0.tasks.len()
                    &&& forall|i: int|
                        0 <= i < db0.tasks.len() ==> final(self)@.tasks[i] == (if db0.tasks[i].task_id
                            == task_id as int {
                            (TaskRecordV {
                                task_id: task_id as int,
                                user_id: user_id as int,
                                title: title@,
                                description: description@,
                            })
                        } else {
                            db0.tasks[i]
                        })
                }
            }),
    {
        let idx = match self.find_task(task_id, user_id) {
            None => {
                return Ok(false);
            },
            Some(i) => i,
        };
        if title.as_str().is_empty() {
            return Err(StorageError::EmptyTitle);
        }
        if self.title_exists_other(&title, task_id) {
            return Err(StorageError::DuplicateTitle);
        }
        let rec = TaskRecord { task_id, user_id, title, description };
        let ghost grec = rec;
        self.tasks[idx] = rec;
        proof {
            lemma_task_views_update(old(self).tasks@, idx as int, grec);
            let db0 = old(self)@;
            let db1 = self@;
            assert(has_task(db0, task_id as int, user_id as int));
            // task ids are unique, so only the found row carries `task_id`
            assert forall|i: int|
                0 <= i < db0.tasks.len() && i != idx as int implies db0.tasks[i].task_id
                != task_id as int by {
                if i < idx as int {
                    assert(db0.tasks[i].task_id < db0.tasks[idx as int].task_id);
                } else {
                    assert(db0.tasks[idx as int].task_id < db0.tasks[i].task_id);
                }
            }
            // the new title collides with no other row
            assert forall|i: int|
                0 <= i < db1.tasks.len() && i != idx as int implies db1.tasks[i].title
                != grec@.title by {
                assert(!(db0.tasks[i].title == grec@.title && db0.tasks[i].task_id
                    != task_id as int));
            }
            assert forall|i: int| 0 <= i < db1.tasks.len() implies has_user(
                db1,
                db1.tasks[i].user_id,
            ) by {
                assert(has_user(db0, db0.tasks[i].user_id));
                let k = choose|k: int|
                    0 <= k < db0.users.len() && db0.users[k].user_id == db0.tasks[i].user_id;
                assert(db1.users[k].user_id == db1.tasks[i].user_id);
            }
        }
        Ok(true)
    }

    /// Removes the task with this id, but only when it is owned by
    /// `user_id`; reports `Ok(false)`, touching nothing, when no such row
    /// exists (a cross-owner attempt lands here).
    pub fn delete_task(&mut self, task_id: i64, user_id: i64) -> (r: Result<bool, StorageError>)
        requires
            old(self).wf(),
        ensures
            final(self).wf(),
            final(self)@.users == old(self)@.users,
            final(self)@.next_task_id == old(self)@.next_task_id,
            ({
                let db0 = old(self)@;
                if !has_task(db0, task_id as int, user_id as int) {
                    r == Ok::<bool, StorageError>(false) && final(self)@ == db0
                } else {
                    r == Ok::<bool, StorageError>(true) && (exists|i: int|
                        0 <= i < db0.tasks.len() && db0.tasks[i].task_id == task_id as int
                            && db0.tasks[i].user_id == user_id as int && final(self)@.tasks
                            == db0.tasks.remove(i))
                }
            }),
    {
        let idx = match self.find_task(task_id, user_id) {
            None => {
                return Ok(false);
            },
            Some(i) => i,
        };
        self.tasks.remove(idx);
        proof {
            lemma_task_views_remove(old(self).tasks@, idx as int);
            let db0 = old(self)@;
            let db1 = self@;
            db0.tasks.remove_ensures(idx as int);
            assert(db1.tasks == db0.tasks.remove(idx as int));
            assert forall|i: int| 0 <= i < db1.tasks.len() implies has_user(
                db1,
                db1.tasks[i].user_id,
            ) by {
                let j: int = if i < idx as int {
                    i
                } else {
                    i + 1
                };
                assert(db1.tasks[i] == db0.tasks[j]);
                assert(has_user(db0, db0.tasks[j].user_id));
                let k = choose|k: int|
                    0 <= k < db0.users.len() && db0.users[k].user_id == db0.tasks[j].user_id;
                assert(db1.users[k].user_id == db1.tasks[i].user_id);
            }
            assert forall|a: int, b: int|
                0 <= a < b < db1.tasks.len() implies db1.tasks[a].task_id
                < db1.tasks[b].task_id by {
                let a0: int = if a < idx as int {
                    a
                } else {
                    a + 1
                };
                let b0: int = if b < idx as int {
                    b
                } else {
                    b + 1
                };
                assert(db1.tasks[a] == db0.tasks[a0]);
                assert(db1.tasks[b] == db0.tasks[b0]);
            }
            assert forall|a: int, b: int|
                0 <= a < b < db1.tasks.len() implies db1.tasks[a].title != db1.tasks[b].title by {
                let a0: int = if a < idx as int {
                    a
                } else {
                    a + 1
                };
                let b0: int = if b < idx as int {
                    b
                } else {
                    b + 1
                };
                assert(db1.tasks[a] == db0.tasks[a0]);
                assert(db1.tasks[b] == db0.tasks[b0]);
            }
        }
        Ok(true)
    }
}

} // verus!
