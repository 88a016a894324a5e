//! The access-controlled task service.
//!
//! Each operation turns a raw request plus an optional session token into an
//! authorized storage operation and a response envelope. Identity comes only
//! from resolving the token in the session store; every task mutation is
//! delegated to the repository scoped to the caller's user id. The envelope
//! always carries the caller's full current state: identity and the complete
//! task list, whatever operation ran.

use vstd::prelude::*;
use vstd::string::StringExecFns;

use crate::db::{StorageError, Task, UserTasksDB};
use crate::model::{
    created_db, has_task, has_user, matching_users, tasks_of, title_taken, title_taken_by_other,
    DbV, TaskRecordV, TaskV,
};
use crate::session::{SessionInfo, SessionStore};

verus! {

/// A task as it appears in a response envelope.
pub struct ResponseTask {
    pub task_id: i64,
    pub task_title: String,
    pub task_description: String,
}

impl View for ResponseTask {
    type V = TaskV;

    open spec fn view(&self) -> TaskV {
        TaskV {
            task_id: self.task_id as int,
            title: self.task_title@,
            description: self.task_description@,
        }
    }
}

/// The response envelope: the caller's identity, their complete current
/// task list, and the outcome of the operation that ran. The unauthenticated
/// sentinel is `user_id == -1`, username `Anon`, and an empty task list.
pub struct Response {
    pub user_id: i64,
    pub username: String,
    pub tasks: Vec<ResponseTask>,
    pub success: bool,
    pub message: String,
}

/// The spec-level image of a response envelope.
pub struct ResponseV {
    pub user_id: int,
    pub username: Seq<char>,
    pub tasks: Seq<TaskV>,
    pub success: bool,
    pub message: Seq<char>,
}

impl View for Response {
    type V = ResponseV;

    open spec fn view(&self) -> ResponseV {
        ResponseV {
            user_id: self.user_id as int,
            username: self.username@,
            tasks: self.tasks@.map_values(|t: ResponseTask| t@),
            success: self.success,
            message: self.message@,
        }
    }
}

/// An envelope plus the HTTP status code the transport should answer with.
pub struct ServiceReply {
    pub response: Response,
    pub status_code: u16,
}

/// What `login` hands back: the envelope, the status code, and the fresh
/// session token when the login succeeded.
pub struct LoginReply {
    pub response: Response,
    pub status_code: u16,
    pub token: Option<u64>,
}

/// The unauthenticated envelope: the anonymous sentinel identity, no tasks.
pub open spec fn anon_response_v(success: bool, message: Seq<char>) -> ResponseV {
    ResponseV {
        user_id: -1,
        username: "Anon"@,
        tasks: Seq::<TaskV>::empty(),
        success,
        message,
    }
}

/// The authenticated envelope: the caller's identity and their full task
/// list as the repository currently holds it.
pub open spec fn user_response_v(
    db: DbV,
    user_id: int,
    username: Seq<char>,
    success: bool,
    message: Seq<char>,
) -> ResponseV {
    ResponseV { user_id, username, tasks: tasks_of(db, user_id), success, message }
}

/// The identity an optional token resolves to in a session-store binding.
pub open spec fn resolved(sessions: Map<u64, SessionInfo>, token: Option<u64>) -> Option<
    SessionInfo,
> {
    match token {
        Option::Some(t) => if sessions.contains_key(t) {
            Option::Some(sessions[t])
        } else {
            Option::None
        },
        Option::None => Option::None,
    }
}

/// The envelope `data` answers with: the caller's current state, which is a
/// normal success whether or not a session exists.
pub open spec fn data_response_v(db: DbV, ident: Option<SessionInfo>) -> ResponseV {
    match ident {
        Option::Some(s) => user_response_v(
            db,
            s.user_id as int,
            s.username@,
            true,
            "User logged in!"@,
        ),
        Option::None => anon_response_v(true, "Not logged in!"@),
    }
}

/// Builds the unauthenticated envelope.
fn anon_response(success: bool, message: &str) -> (r: Response)
    ensures
        r@ == anon_response_v(success, message@),
{
    let r = Response {
        user_id: -1,
        username: String::from_str("Anon"),
        tasks: Vec::new(),
        success,
        message: String::from_str(message),
    };
    proof {
        assert(r@.tasks =~= Seq::<TaskV>::empty());
    }
    r
}

/// Recasts a task listing into its envelope shape.
fn to_response_tasks(tasks: &Vec<Task>) -> (r: Vec<ResponseTask>)
    ensures
        r@.map_values(|t: ResponseTask| t@) == tasks@.map_values(|t: Task| t@),
{
    let mut r: Vec<ResponseTask> = Vec::new();
    let mut i: usize = 0;
    proof {
        assert(r@.map_values(|t: ResponseTask| t@) =~= tasks@.take(0).map_values(|t: Task| t@));
    }
    while i < tasks.len()
        invariant
            i <= tasks.len(),
            r@.map_values(|t: ResponseTask| t@) == tasks@.take(i as int).map_values(|t: Task| t@),
        decreases tasks.len() - i,
    {
        let t = &tasks[i];
        let copy = ResponseTask {
            task_id: t.task_id,
            task_title: t.title.clone(),
            task_description: t.description.clone(),
        };
        let ghost gc = copy;
        let ghost old_r = r@;
        r.push(copy);
        proof {
            assert(old_r.push(gc).map_values(|t: ResponseTask| t@) =~= old_r.map_values(
                |t: ResponseTask| t@,
            ).push(gc@));
            assert(tasks@.take(i + 1 as int) =~= tasks@.take(i as int).push(tasks@[i as int]));
            assert(tasks@.take(i + 1 as int).map_values(|t: Task| t@) =~= tasks@.take(
                i as int,
            ).map_values(|t: Task| t@).push(tasks@[i as int]@));
        }
        i += 1;
    }
    proof {
        assert(tasks@.take(tasks@.len() as int) =~= tasks@);
    }
    r
}

/// Builds the authenticated envelope for the identity `(user_id, username)`
/// out of the repository's current listing for that user.
fn user_response(
    db: &UserTasksDB,
    user_id: i64,
    username: &String,
    success: bool,
    message: &str,
) -> (r: Response)
    ensures
        r@ == user_response_v(db@, user_id as int, username@, success, message@),
{
    let tasks = db.get_tasks_by_user_id(user_id);
    let rtasks = to_response_tasks(&tasks);
    Response {
        user_id,
        username: username.clone(),
        tasks: rtasks,
        success,
        message: String::from_str(message),
    }
}

/// Answers a state request: resolves the token and reports the caller's
/// current state. Not being logged in is a valid state, never an error.
pub fn data(store: &SessionStore, db: &UserTasksDB, token: Option<u64>) -> (r: ServiceReply)
    ensures
        r.response@ == data_response_v(db@, resolved(store@, token)),
        r.status_code == 200,
{
    let ident = match token {
        Some(t) => store.resolve(t),
        None => None,
    };
    match ident {
        Some(info) => {
            let response = user_response(db, info.user_id, &info.username, true, "User logged in!");
            ServiceReply { response, status_code: 200 }
        },
        None => ServiceReply {
            response: anon_response(true, "Not logged in!"),
            status_code: 200,
        },
    }
}

/// Attempts a login with exact credential matching.
///
/// Zero matching users is a business-level rejection (the session and state
/// stay untouched); exactly one match establishes a fresh session for that
/// user, replacing whatever binding the presented token had; more than one
/// match means the storage lost username uniqueness and is answered as an
/// integrity failure, not by silently picking one.
pub fn login(
    store: &mut SessionStore,
    db: &UserTasksDB,
    token: Option<u64>,
    username: &str,
    password: &str,
) -> (r: LoginReply)
    requires
        old(store).wf(),
        old(store).token_bound() < u64::MAX,
    ensures
        final(store).wf(),
        ({
            let m = matching_users(db@, username@, password@);
            let stripped = (match token {
                Option::Some(t0) => old(store)@.remove(t0),
                Option::None => old(store)@,
            });
            if m.len() == 0 {
                &&& r.response@ == anon_response_v(false, "Login: No User found!"@)
                &&& r.status_code == 400
                &&& final(store)@ == old(store)@
                &&& r.token is None
            } else if m.len() == 1 {
                &&& (r.token matches Some(t) && !old(store)@.contains_key(t)
                    && final(store)@.contains_key(t) && final(store)@[t].user_id as int
                    == m[0].user_id && final(store)@[t].username@ == m[0].username
                    && final(store)@ == stripped.insert(t, final(store)@[t]))
                &&& r.response@ == user_response_v(
                    db@,
                    m[0].user_id,
                    m[0].username,
                    true,
                    "Logged in successfully!"@,
                )
                &&& r.status_code == 200
            } else {
                &&& r.response@ == anon_response_v(false, "DB fail more than 1 user"@)
                &&& r.status_code == 500
                &&& final(store)@ == old(store)@
                &&& r.token is None
            }
        }),
{
    let users = db.get_user_by_credentials(username, password);
    if users.len() == 0 {
        LoginReply {
            response: anon_response(false, "Login: No User found!"),
            status_code: 400,
            token: None,
        }
    } else if users.len() == 1 {
        let user_id = users[0].user_id;
        let uname = users[0].username.clone();
        if let Some(t0) = token {
            store.revoke(t0);
        }
        let t = store.establish(user_id, uname.clone());
        let response = user_response(db, user_id, &uname, true, "Logged in successfully!");
        proof {
            let m = matching_users(db@, username@, password@);
            assert(users@.map_values(|u: crate::db::User| u@)[0] == m[0]);
        }
        LoginReply { response, status_code: 200, token: Some(t) }
    } else {
        LoginReply {
            response: anon_response(false, "DB fail more than 1 user"),
            status_code: 500,
            token: None,
        }
    }
}

/// Ends the session bound to the presented token. Logging out without a
/// live session reports "already logged out" without erroring, so a repeated
/// logout is harmless.
pub fn logout(store: &mut SessionStore, token: Option<u64>) -> (r: ServiceReply)
    requires
        old(store).wf(),
    ensures
        final(store).wf(),
        r.status_code == 200,
        ({
            match token {
                Option::Some(t) => {
                    if old(store)@.contains_key(t) {
                        final(store)@ == old(store)@.remove(t) && r.response@ == anon_response_v(
                            true,
                            "Logged out successfully"@,
                        )
                    } else {
                        final(store)@ == old(store)@ && r.response@ == anon_response_v(
                            false,
                            "Already logged out!"@,
                        )
                    }
                },
                Option::None => final(store)@ == old(store)@ && r.response@ == anon_response_v(
                    false,
                    "Already logged out!"@,
                ),
            }
        }),
{
    match token {
        Some(t) => {
            let live = store.resolve(t).is_some();
            if live {
                store.revoke(t);
                ServiceReply {
                    response: anon_response(true, "Logged out successfully"),
                    status_code: 200,
                }
            } else {
                ServiceReply {
                    response: anon_response(false, "Already logged out!"),
                    status_code: 200,
                }
            }
        },
        None => ServiceReply {
            response: anon_response(false, "Already logged out!"),
            status_code: 200,
        },
    }
}

/// Creates a task for the caller. Without a live session nothing is stored
/// and the envelope is the unauthorized one; with one, the repository
/// creates the task scoped to the caller's user id and the envelope carries
/// the re-read full task list either way. An empty title is a rejected
/// mutation; a duplicate title or a broken owner reference is an integrity
/// failure.
pub fn task_create(
    store: &SessionStore,
    db: &mut UserTasksDB,
    token: Option<u64>,
    task_title: String,
    task_description: String,
) -> (r: ServiceReply)
    requires
        old(db).wf(),
        old(db)@.next_task_id < i64::MAX,
    ensures
        final(db).wf(),
        ({
            let db0 = old(db)@;
            match resolved(store@, token) {
                Option::None => {
                    &&& r.response@ == anon_response_v(false, "Create task: unauthorized!"@)
                    &&& r.status_code == 401
                    &&& final(db)@ == db0
                },
                Option::Some(s) => {
                    let uid = s.user_id as int;
                    if task_title@.len() == 0 {
                        &&& final(db)@ == db0
                        &&& r.status_code == 400
                        &&& r.response@ == user_response_v(
                            db0,
                            uid,
                            s.username@,
                            false,
                            "Create task: failed!"@,
                        )
                    } else if title_taken(db0, task_title@) {
                        &&& final(db)@ == db0
                        &&& r.status_code == 500
                        &&& r.response@ == user_response_v(
                            db0,
                            uid,
                            s.username@,
                            false,
                            "Create task: failed!"@,
                        )
                    } else if !has_user(db0, uid) {
                        &&& final(db)@ == db0
                        &&& r.status_code == 500
                        &&& r.response@ == user_response_v(
                            db0,
                            uid,
                            s.username@,
                            false,
                            "Create task: failed!"@,
                        )
                    } else {
                        &&& final(db)@ == created_db(db0, uid, task_title@, task_description@)
                        &&& r.status_code == 200
                        &&& r.response@ == user_response_v(
                            final(db)@,
                            uid,
                            s.username@,
                            true,
                            "Create task: successful!"@,
                        )
                    }
                },
            }
        }),
{
    let ident = match token {
        Some(t) => store.resolve(t),
        None => None,
    };
    match ident {
        None => ServiceReply {
            response: anon_response(false, "Create task: unauthorized!"),
            status_code: 401,
        },
        Some(info) => {
            let created = db.create_task(info.user_id, task_title, task_description);
            let (success, status): (bool, u16) = match &created {
                Ok(_) => (true, 200),
                Err(StorageError::EmptyTitle) => (false, 400),
                Err(_) => (false, 500),
            };
            let response = if success {
                user_response(db, info.user_id, &info.username, true, "Create task: successful!")
            } else {
                user_response(db, info.user_id, &info.username, false, "Create task: failed!")
            };
            ServiceReply { response, status_code: status }
        },
    }
}

/// Rewrites a task's title and description for the caller. Without a live
/// session nothing changes; with one, the repository updates only a task
/// with that id owned by the caller, so an attempt on a nonexistent or
/// foreign-owned task is reported as a failed-but-processed outcome and the
/// storage stays untouched.
pub fn task_update(
    store: &SessionStore,
    db: &mut UserTasksDB,
    token: Option<u64>,
    task_id: i64,
    task_title: String,
    task_description: String,
) -> (r: ServiceReply)
    requires
        old(db).wf(),
    ensures
        final(db).wf(),
        ({
            let db0 = old(db)@;
            match resolved(store@, token) {
                Option::None => {
                    &&& r.response@ == anon_response_v(false, "Update task: unauthorized!"@)
                    &&& r.status_code == 401
                    &&& final(db)@ == db0
                },
                Option::Some(s) => {
                    let uid = s.user_id as int;
                    if !has_task(db0, task_id as int, uid) {
                        &&& final(db)@ == db0
                        &&& r.status_code == 400
                        &&& r.response@ == user_response_v(
                            db0,
                            uid,
                            s.username@,
                            false,
                            "Update task: failed!"@,
                        )
                    } else if task_title@.len() == 0 {
                        &&& final(db)@ == db0
                        &&& r.status_code == 400
                        &&& r.response@ == user_response_v(
                            db0,
                            uid,
                            s.username@,
                            false,
                            "Update task: failed!"@,
                        )
                    } else if title_taken_by_other(db0, task_title@, task_id as int) {
                        &&& final(db)@ == db0
                        &&& r.status_code == 500
                        &&& r.response@ == user_response_v(
                            db0,
                            uid,
                            s.username@,
                            false,
                            "Update task: failed!"@,
                        )
                    } else {
                        &&& final(db)@.users == db0.users
                        &&& final(db)@.next_task_id == db0.next_task_id
                        &&& final(db)@.tasks.len() == db0.tasks.len()
                        &&& forall|i: int|
                            0 <= i < db0.tasks.len() ==> final(db)@.tasks[i] == (if db0.tasks[i].task_id
                                == task_id as int {
                                (TaskRecordV {
                                    task_id: task_id as int,
                                    user_id: uid,
                                    title: task_title@,
                                    description: task_description@,
                                })
                            } else {
                                db0.tasks[i]
                            })
                        &&& r.status_code == 200
                        &&& r.response@ == user_response_v(
                            final(db)@,
                            uid,
                            s.username@,
                            true,
                            "Update task: successful!"@,
                        )
                    }
                },
            }
        }),
{
    let ident = match token {
        Some(t) => store.resolve(t),
        None => None,
    };
    match ident {
        None => ServiceReply {
            response: anon_response(false, "Update task: unauthorized!"),
            status_code: 401,
        },
        Some(info) => {
            let updated = db.update_task(task_id, info.user_id, task_title, task_description);
            let (success, status): (bool, u16) = match &updated {
                Ok(true) => (true, 200),
                Ok(false) => (false, 400),
                Err(StorageError::DuplicateTitle) => (false, 500),
                Err(_) => (false, 400),
            };
            let response = if success {
                user_response(db, info.user_id, &info.username, true, "Update task: successful!")
            } else {
                user_response(db, info.user_id, &info.username, false, "Update task: failed!")
            };
            ServiceReply { response, status_code: status }
        },
    }
}

/// Deletes a task for the caller. Without a live session nothing changes;
/// with one, the repository removes only a task with that id owned by the
/// caller, so an attempt on a nonexistent or foreign-owned task is a
/// failed-but-processed outcome and the storage stays untouched.
pub fn task_delete(
    store: &SessionStore,
    db: &mut UserTasksDB,
    token: Option<u64>,
    task_id: i64,
) -> (r: ServiceReply)
    requires
        old(db).wf(),
    ensures
        final(db).wf(),
        ({
            let db0 = old(db)@;
            match resolved(store@, token) {
                Option::None => {
                    &&& r.response@ == anon_response_v(false, "Delete task: unauthorized!"@)
                    &&& r.status_code == 401
                    &&& final(db)@ == db0
                },
                Option::Some(s) => {
                    let uid = s.user_id as int;
                    if !has_task(db0, task_id as int, uid) {
                        &&& final(db)@ == db0
                        &&& r.status_code == 400
                        &&& r.response@ == user_response_v(
                            db0,
                            uid,
                            s.username@,
                            false,
                            "Delete task: failed!"@,
                        )
                    } else {
                        &&& final(db)@.users == db0.users
                        &&& final(db)@.next_task_id == db0.next_task_id
                        &&& (exists|i: int|
                            0 <= i < db0.tasks.len() && db0.tasks[i].task_id == task_id as int
                                && db0.tasks[i].user_id == uid && final(db)@.tasks == db0.tasks.remove(
                                i,
                            ))
                        &&& r.status_code == 200
                        &&& r.response@ == user_response_v(
                            final(db)@,
                            uid,
                            s.username@,
                            true,
                            "Delete task: successful!"@,
                        )
                    }
                },
            }
        }),
{
    let ident = match token {
        Some(t) => store.resolve(t),
        None => None,
    };
    match ident {
        None => ServiceReply {
            response: anon_response(false, "Delete task: unauthorized!"),
            status_code: 401,
        },
        Some(info) => {
            let deleted = db.delete_task(task_id, info.user_id);
            let success = match &deleted {
                Ok(true) => true,
                _ => false,
            };
            let response = if success {
                user_response(db, info.user_id, &info.username, true, "Delete task: successful!")
            } else {
                user_response(db, info.user_id, &info.username, false, "Delete task: failed!")
            };
            let status: u16 = if success {
                200
            } else {
                400
            };
            ServiceReply { response, status_code: status }
        },
    }
}

} // verus!
