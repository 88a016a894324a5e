use tasklist::db::{StorageError, UserTasksDB};

fn seeded() -> UserTasksDB {
    let mut db = UserTasksDB::new();
    db.reset();
    db
}

#[test]
fn reset_installs_the_seed_data() {
    let db = seeded();
    let user1_tasks = db.get_tasks_by_user_id(1);
    assert_eq!(user1_tasks.len(), 1);
    assert_eq!(user1_tasks[0].task_id, 1);
    assert_eq!(user1_tasks[0].title, "title 11");
    assert_eq!(user1_tasks[0].description, "description 11");
    let user2_tasks = db.get_tasks_by_user_id(2);
    assert_eq!(user2_tasks.len(), 2);
    let user0_tasks = db.get_tasks_by_user_id(0);
    assert!(user0_tasks.is_empty());
}

#[test]
fn credentials_match_exactly() {
    let db = seeded();
    let hit = db.get_user_by_credentials("user1", "password1");
    assert_eq!(hit.len(), 1);
    assert_eq!(hit[0].user_id, 1);
    assert_eq!(hit[0].username, "user1");
    assert!(db.get_user_by_credentials("user1", "password2").is_empty());
    assert!(db.get_user_by_credentials("user1", "Password1").is_empty());
    assert!(db.get_user_by_credentials("nobody", "password1").is_empty());
}

#[test]
fn create_assigns_fresh_ascending_ids() {
    let mut db = UserTasksDB::new();
    assert!(db.seed_user(5, "u".to_string(), "p".to_string()));
    let a = db.create_task(5, "first".to_string(), "a".to_string()).unwrap();
    let b = db.create_task(5, "second".to_string(), "b".to_string()).unwrap();
    assert_eq!(a.task_id, 1);
    assert_eq!(b.task_id, 2);
    let listed = db.get_tasks_by_user_id(5);
    assert_eq!(listed.len(), 2);
    assert!(listed[0].task_id < listed[1].task_id);
}

#[test]
fn create_for_missing_owner_is_a_foreign_key_violation() {
    let mut db = seeded();
    let r = db.create_task(99, "orphan".to_string(), "x".to_string());
    assert_eq!(r.unwrap_err(), StorageError::ForeignKeyViolation);
    assert!(db.get_tasks_by_user_id(99).is_empty());
}

#[test]
fn create_duplicate_title_fails_globally() {
    let mut db = seeded();
    // "title 21" belongs to user2; user1 cannot reuse it either
    let r = db.create_task(1, "title 21".to_string(), "x".to_string());
    assert_eq!(r.unwrap_err(), StorageError::DuplicateTitle);
    assert_eq!(db.get_tasks_by_user_id(1).len(), 1);
}

#[test]
fn create_empty_title_is_refused() {
    let mut db = seeded();
    let r = db.create_task(1, String::new(), "x".to_string());
    assert_eq!(r.unwrap_err(), StorageError::EmptyTitle);
}

#[test]
fn update_missing_or_foreign_row_is_a_noop() {
    let mut db = seeded();
    let missing = db.update_task(42, 1, "t".to_string(), "d".to_string());
    assert_eq!(missing.unwrap(), false);
    // task 2 exists but belongs to user2, not user1
    let foreign = db.update_task(2, 1, "t".to_string(), "d".to_string());
    assert_eq!(foreign.unwrap(), false);
    let kept = db.get_tasks_by_user_id(2);
    assert_eq!(kept[0].title, "title 21");
    assert_eq!(kept[0].description, "description 21");
}

#[test]
fn update_own_row_rewrites_title_and_description() {
    let mut db = seeded();
    let r = db.update_task(2, 2, "renamed".to_string(), "rewritten".to_string());
    assert_eq!(r.unwrap(), true);
    let listed = db.get_tasks_by_user_id(2);
    assert_eq!(listed[0].task_id, 2);
    assert_eq!(listed[0].title, "renamed");
    assert_eq!(listed[0].description, "rewritten");
    assert_eq!(listed[1].task_id, 3);
    assert_eq!(listed[1].title, "title 31");
}

#[test]
fn update_to_anothers_title_is_refused() {
    let mut db = seeded();
    let r = db.update_task(2, 2, "title 31".to_string(), "x".to_string());
    assert_eq!(r.unwrap_err(), StorageError::DuplicateTitle);
    assert_eq!(db.get_tasks_by_user_id(2)[0].title, "title 21");
}

#[test]
fn update_keeping_own_title_is_allowed() {
    let mut db = seeded();
    let r = db.update_task(2, 2, "title 21".to_string(), "fresh notes".to_string());
    assert_eq!(r.unwrap(), true);
    let listed = db.get_tasks_by_user_id(2);
    assert_eq!(listed[0].title, "title 21");
    assert_eq!(listed[0].description, "fresh notes");
}

#[test]
fn update_to_empty_title_is_refused() {
    let mut db = seeded();
    let r = db.update_task(2, 2, String::new(), "x".to_string());
    assert_eq!(r.unwrap_err(), StorageError::EmptyTitle);
    assert_eq!(db.get_tasks_by_user_id(2)[0].title, "title 21");
}

#[test]
fn delete_matches_id_and_owner_only() {
    let mut db = seeded();
    // wrong owner: nothing happens
    assert_eq!(db.delete_task(2, 1).unwrap(), false);
    assert_eq!(db.get_tasks_by_user_id(2).len(), 2);
    // right owner: the row goes away, once
    assert_eq!(db.delete_task(2, 2).unwrap(), true);
    let listed = db.get_tasks_by_user_id(2);
    assert_eq!(listed.len(), 1);
    assert_eq!(listed[0].task_id, 3);
    assert_eq!(db.delete_task(2, 2).unwrap(), false);
}

#[test]
fn freed_title_can_be_reused() {
    let mut db = seeded();
    assert_eq!(db.delete_task(2, 2).unwrap(), true);
    let r = db.create_task(1, "title 21".to_string(), "reclaimed".to_string());
    let t = r.unwrap();
    assert_eq!(t.task_id, 4);
    assert_eq!(t.title, "title 21");
}

#[test]
fn listing_comes_out_ascending_by_task_id() {
    let mut db = seeded();
    db.create_task(2, "extra one".to_string(), "x".to_string()).unwrap();
    db.create_task(2, "extra two".to_string(), "y".to_string()).unwrap();
    let ids: Vec<i64> = db.get_tasks_by_user_id(2).into_iter().map(|t| t.task_id).collect();
    assert_eq!(ids, vec![2, 3, 4, 5]);
}

#[test]
fn seeding_a_taken_user_id_is_refused() {
    let mut db = seeded();
    assert!(!db.seed_user(1, "impostor".to_string(), "pw".to_string()));
    assert!(db.get_user_by_credentials("impostor", "pw").is_empty());
    assert!(db.seed_user(9, "ninth".to_string(), "pw".to_string()));
    assert_eq!(db.get_user_by_credentials("ninth", "pw").len(), 1);
}
