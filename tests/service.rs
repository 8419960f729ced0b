use taskstore::service::{
    create_task, delete_task, login, read_all_task, read_task, register_user, update_task, Body,
    Response,
};
use taskstore::store::{Database, Task, User};

fn text_of(r: &Response) -> &str {
    match &r.body {
        Body::Text(s) => s.as_str(),
        other => panic!("expected a text body, got {:?}", other),
    }
}

fn user(id: u64, username: &str, password: &str) -> User {
    User { id, username: username.to_string(), password: password.to_string() }
}

#[test]
fn register_then_login() {
    let mut db = Database::new();
    let r = register_user(&mut db, user(1, "a", "p"));
    assert_eq!(r.status, 200);
    assert!(matches!(r.body, Body::Empty));
    assert!(r.persist);
    let ok = login(&db, &user(1, "a", "p"));
    assert_eq!(ok.status, 200);
    assert_eq!(text_of(&ok), "Login success");
    assert!(!ok.persist);
    let bad = login(&db, &user(1, "a", "wrong"));
    assert_eq!(bad.status, 400);
    assert_eq!(text_of(&bad), "User not found");
}

#[test]
fn login_of_unknown_user_is_rejected() {
    let db = Database::new();
    let r = login(&db, &user(1, "nobody", "p"));
    assert_eq!(r.status, 400);
    assert_eq!(text_of(&r), "User not found");
}

#[test]
fn create_read_delete_read() {
    let mut db = Database::new();
    let c = create_task(&mut db, Task { id: 5, name: "x".to_string(), completed: false });
    assert_eq!(c.status, 200);
    assert_eq!(text_of(&c), "Task created");
    assert!(c.persist);
    let g = read_task(&db, 5);
    assert_eq!(g.status, 200);
    match &g.body {
        Body::Task(t) => {
            assert_eq!(t.id, 5);
            assert_eq!(t.name, "x");
            assert!(!t.completed);
        }
        other => panic!("expected a task, got {:?}", other),
    }
    let d = delete_task(&mut db, 5);
    assert_eq!(d.status, 200);
    assert_eq!(text_of(&d), "Task deleted");
    let gone = read_task(&db, 5);
    assert_eq!(gone.status, 404);
    assert_eq!(text_of(&gone), "Task not found");
}

#[test]
fn list_of_empty_store_is_empty() {
    let db = Database::new();
    let r = read_all_task(&db);
    assert_eq!(r.status, 200);
    match &r.body {
        Body::Tasks(v) => assert!(v.is_empty()),
        other => panic!("expected a list, got {:?}", other),
    }
}

#[test]
fn list_holds_every_task() {
    let mut db = Database::new();
    create_task(&mut db, Task { id: 1, name: "a".to_string(), completed: false });
    create_task(&mut db, Task { id: 2, name: "b".to_string(), completed: true });
    let r = read_all_task(&db);
    match &r.body {
        Body::Tasks(v) => {
            let mut names: Vec<&str> = v.iter().map(|t| t.name.as_str()).collect();
            names.sort();
            assert_eq!(names, vec!["a", "b"]);
        }
        other => panic!("expected a list, got {:?}", other),
    }
}

#[test]
fn update_replaces_task_by_its_own_id() {
    let mut db = Database::new();
    create_task(&mut db, Task { id: 2, name: "a".to_string(), completed: false });
    let u = update_task(&mut db, Task { id: 2, name: "b".to_string(), completed: true });
    assert_eq!(u.status, 200);
    assert_eq!(text_of(&u), "Task updated");
    let t = db.get(2).unwrap();
    assert_eq!(t.name, "b");
    assert!(t.completed);
}

#[test]
fn delete_of_absent_task_still_succeeds() {
    let mut db = Database::new();
    let d = delete_task(&mut db, 42);
    assert_eq!(d.status, 200);
    assert!(db.getAll().is_empty());
}

#[test]
fn task_survives_restart() {
    let mut db = Database::new();
    create_task(&mut db, Task { id: 8, name: "keep".to_string(), completed: true });
    let saved = db.snapshot();
    drop(db);
    let reloaded = Database::from_snapshot(saved);
    let r = read_task(&reloaded, 8);
    assert_eq!(r.status, 200);
    match &r.body {
        Body::Task(t) => {
            assert_eq!(t.id, 8);
            assert_eq!(t.name, "keep");
            assert!(t.completed);
        }
        other => panic!("expected a task, got {:?}", other),
    }
}
