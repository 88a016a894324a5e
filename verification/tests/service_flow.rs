use tasklist::db::UserTasksDB;
use tasklist::service::{data, login, logout, task_create, task_delete, task_update};
use tasklist::session::SessionStore;

fn seeded() -> (SessionStore, UserTasksDB) {
    let mut db = UserTasksDB::new();
    db.reset();
    (SessionStore::new(), db)
}

fn snapshot(db: &UserTasksDB, user_id: i64) -> Vec<(i64, String, String)> {
    db.get_tasks_by_user_id(user_id)
        .into_iter()
        .map(|t| (t.task_id, t.title, t.description))
        .collect()
}

#[test]
fn login_user1_create_buy_milk() {
    let (mut store, mut db) = seeded();
    let l = login(&mut store, &db, None, "user1", "password1");
    assert!(l.response.success);
    assert_eq!(l.status_code, 200);
    assert_eq!(l.response.user_id, 1);
    assert_eq!(l.response.username, "user1");
    assert_eq!(l.response.message, "Logged in successfully!");
    assert_eq!(l.response.tasks.len(), 1);
    assert_eq!(l.response.tasks[0].task_title, "title 11");
    assert!(l.token.is_some());

    let c = task_create(&store, &mut db, l.token, "buy milk".to_string(), "2%".to_string());
    assert!(c.response.success);
    assert_eq!(c.status_code, 200);
    assert_eq!(c.response.message, "Create task: successful!");
    assert_eq!(c.response.tasks.len(), 2);
    assert_eq!(c.response.tasks[0].task_id, 1);
    assert_eq!(c.response.tasks[0].task_title, "title 11");
    assert_eq!(c.response.tasks[1].task_id, 4);
    assert_eq!(c.response.tasks[1].task_title, "buy milk");
    assert_eq!(c.response.tasks[1].task_description, "2%");

    // a second creation under the same title fails and the list is unchanged
    let before = snapshot(&db, 1);
    let c2 = task_create(&store, &mut db, l.token, "buy milk".to_string(), "whole".to_string());
    assert!(!c2.response.success);
    assert_eq!(c2.status_code, 500);
    assert_eq!(c2.response.message, "Create task: failed!");
    assert_eq!(snapshot(&db, 1), before);
    assert_eq!(c2.response.tasks.len(), 2);
    assert_eq!(c2.response.tasks[1].task_description, "2%");
}

#[test]
fn login_wrong_password_rejected() {
    let (mut store, db) = seeded();
    let l = login(&mut store, &db, None, "user2", "wrongpassword");
    assert!(!l.response.success);
    assert_eq!(l.status_code, 400);
    assert_eq!(l.response.user_id, -1);
    assert_eq!(l.response.username, "Anon");
    assert!(l.response.tasks.is_empty());
    assert_eq!(l.response.message, "Login: No User found!");
    assert!(l.token.is_none());
}

#[test]
fn login_then_current_state_agree() {
    let (mut store, db) = seeded();
    let l = login(&mut store, &db, None, "user2", "password2");
    assert!(l.response.success);
    let d = data(&store, &db, l.token);
    assert_eq!(d.status_code, 200);
    assert!(d.response.success);
    assert_eq!(d.response.user_id, l.response.user_id);
    assert_eq!(d.response.username, l.response.username);
    assert_eq!(d.response.tasks.len(), l.response.tasks.len());
    for (a, b) in d.response.tasks.iter().zip(l.response.tasks.iter()) {
        assert_eq!(a.task_id, b.task_id);
        assert_eq!(a.task_title, b.task_title);
        assert_eq!(a.task_description, b.task_description);
    }
}

#[test]
fn cross_owner_mutations_touch_nothing() {
    let (mut store, mut db) = seeded();
    // task 2 belongs to user2; user1 tries to edit and delete it
    let before = snapshot(&db, 2);
    let l = login(&mut store, &db, None, "user1", "password1");
    let u = task_update(&store, &mut db, l.token, 2, "hijacked".to_string(), "x".to_string());
    assert!(!u.response.success);
    assert_eq!(u.status_code, 400);
    assert_eq!(snapshot(&db, 2), before);
    let dl = task_delete(&store, &mut db, l.token, 2);
    assert!(!dl.response.success);
    assert_eq!(dl.status_code, 400);
    assert_eq!(snapshot(&db, 2), before);
}

#[test]
fn title_collision_across_owners_is_integrity_error() {
    let (mut store, mut db) = seeded();
    // "title 21" is already used by a task of user2
    let l = login(&mut store, &db, None, "user1", "password1");
    let before = snapshot(&db, 1);
    let c = task_create(&store, &mut db, l.token, "title 21".to_string(), "steal".to_string());
    assert!(!c.response.success);
    assert_eq!(c.status_code, 500);
    assert_eq!(snapshot(&db, 1), before);
}

#[test]
fn logout_twice_reports_already_logged_out() {
    let (mut store, db) = seeded();
    let l = login(&mut store, &db, None, "user1", "password1");
    let o1 = logout(&mut store, l.token);
    assert!(o1.response.success);
    assert_eq!(o1.status_code, 200);
    assert_eq!(o1.response.message, "Logged out successfully");
    let o2 = logout(&mut store, l.token);
    assert!(!o2.response.success);
    assert_eq!(o2.status_code, 200);
    assert_eq!(o2.response.message, "Already logged out!");
}

#[test]
fn create_then_current_state_round_trip() {
    let (mut store, mut db) = seeded();
    // user0 starts with no tasks
    let l = login(&mut store, &db, None, "user0", "password0");
    assert!(l.response.success);
    assert!(l.response.tasks.is_empty());
    let c = task_create(&store, &mut db, l.token, "plan".to_string(), "notes".to_string());
    assert!(c.response.success);
    let d = data(&store, &db, l.token);
    let matching: Vec<_> = d.response.tasks.iter().filter(|t| t.task_title == "plan").collect();
    assert_eq!(matching.len(), 1);
    assert_eq!(matching[0].task_description, "notes");
    assert_eq!(matching[0].task_id, 4);
}

#[test]
fn no_session_is_a_valid_state() {
    let (store, db) = seeded();
    let d = data(&store, &db, None);
    assert!(d.response.success);
    assert_eq!(d.status_code, 200);
    assert_eq!(d.response.user_id, -1);
    assert_eq!(d.response.username, "Anon");
    assert!(d.response.tasks.is_empty());
    assert_eq!(d.response.message, "Not logged in!");
}

#[test]
fn stale_token_is_anonymous_again() {
    let (mut store, db) = seeded();
    let l = login(&mut store, &db, None, "user1", "password1");
    logout(&mut store, l.token);
    let d = data(&store, &db, l.token);
    assert!(d.response.success);
    assert_eq!(d.response.user_id, -1);
    assert_eq!(d.response.message, "Not logged in!");
}

#[test]
fn mutations_without_session_are_unauthorized() {
    let (store, mut db) = seeded();
    let before = snapshot(&db, 1);
    let c = task_create(&store, &mut db, None, "sneak".to_string(), "x".to_string());
    assert!(!c.response.success);
    assert_eq!(c.status_code, 401);
    assert_eq!(c.response.message, "Create task: unauthorized!");
    let u = task_update(&store, &mut db, Some(99), 1, "sneak".to_string(), "x".to_string());
    assert!(!u.response.success);
    assert_eq!(u.status_code, 401);
    assert_eq!(u.response.message, "Update task: unauthorized!");
    let dl = task_delete(&store, &mut db, None, 1);
    assert!(!dl.response.success);
    assert_eq!(dl.status_code, 401);
    assert_eq!(dl.response.message, "Delete task: unauthorized!");
    assert_eq!(snapshot(&db, 1), before);
}

#[test]
fn ambiguous_credentials_are_an_integrity_error() {
    let (mut store, mut db) = seeded();
    assert!(db.seed_user(7, "dup".to_string(), "pw".to_string()));
    assert!(db.seed_user(8, "dup".to_string(), "pw".to_string()));
    let l = login(&mut store, &db, None, "dup", "pw");
    assert!(!l.response.success);
    assert_eq!(l.status_code, 500);
    assert_eq!(l.response.message, "DB fail more than 1 user");
    assert!(l.token.is_none());
}

#[test]
fn empty_title_is_a_rejected_mutation() {
    let (mut store, mut db) = seeded();
    let l = login(&mut store, &db, None, "user1", "password1");
    let before = snapshot(&db, 1);
    let c = task_create(&store, &mut db, l.token, String::new(), "x".to_string());
    assert!(!c.response.success);
    assert_eq!(c.status_code, 400);
    assert_eq!(snapshot(&db, 1), before);
}

#[test]
fn login_replaces_presented_session() {
    let (mut store, db) = seeded();
    let first = login(&mut store, &db, None, "user1", "password1");
    let second = login(&mut store, &db, first.token, "user2", "password2");
    assert!(second.response.success);
    assert_ne!(first.token, second.token);
    // the old binding is gone; the new token resolves to user2
    let stale = data(&store, &db, first.token);
    assert_eq!(stale.response.user_id, -1);
    let fresh = data(&store, &db, second.token);
    assert_eq!(fresh.response.user_id, 2);
    assert_eq!(fresh.response.username, "user2");
}

#[test]
fn update_own_task_through_service() {
    let (mut store, mut db) = seeded();
    let l = login(&mut store, &db, None, "user2", "password2");
    let u = task_update(&store, &mut db, l.token, 2, "renamed".to_string(), "new text".to_string());
    assert!(u.response.success);
    assert_eq!(u.status_code, 200);
    assert_eq!(u.response.message, "Update task: successful!");
    let listed = snapshot(&db, 2);
    assert_eq!(listed.len(), 2);
    assert_eq!(listed[0], (2, "renamed".to_string(), "new text".to_string()));
    assert_eq!(listed[1].0, 3);
}

#[test]
fn delete_own_task_through_service() {
    let (mut store, mut db) = seeded();
    let l = login(&mut store, &db, None, "user2", "password2");
    let dl = task_delete(&store, &mut db, l.token, 3);
    assert!(dl.response.success);
    assert_eq!(dl.status_code, 200);
    assert_eq!(dl.response.tasks.len(), 1);
    assert_eq!(dl.response.tasks[0].task_id, 2);
    // deleting it again is a no-op failure, not an error
    let again = task_delete(&store, &mut db, l.token, 3);
    assert!(!again.response.success);
    assert_eq!(again.status_code, 400);
}
