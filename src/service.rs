use crate::store::{lists_values, has_username, unique_usernames, Database, Task, User};
use vstd::prelude::*;

verus! {

/// What a request answers with, apart from its status.
#[derive(Debug)]
pub enum Body {
    Empty,
    Text(String),
    Task(Task),
    Tasks(Vec<Task>),
}

/// The outcome of one request: a status code, a body, and whether the store
/// changed and so must be written out before the guard is released.
#[derive(Debug)]
pub struct Response {
    pub status: u16,
    pub body: Body,
    pub persist: bool,
}

/// `b` is a text body holding exactly `t`.
pub open spec fn is_text(b: Body, t: Seq<char>) -> bool {
    match b {
        Body::Text(s) => s@ == t,
        _ => false,
    }
}

/// A successful answer that carries `text` and asks for the store to be saved.
fn saved_with(text: &str) -> (r: Response)
    ensures
        r.status == 200,
        is_text(r.body, text@),
        r.persist,
{
    Response { status: 200, body: Body::Text(text.to_owned()), persist: true }
}

/// Stores the task under its own id.
pub fn create_task(db: &mut Database, task: Task) -> (r: Response)
    ensures
        final(db).task_map() == old(db).task_map().insert(task.id, task),
        final(db).user_map() == old(db).user_map(),
        r.status == 200,
        is_text(r.body, "Task created"@),
        r.persist,
{
    db.insert(task);
    saved_with("Task created")
}

/// Answers with the task stored under `id`, or with a not-found status.
pub fn read_task(db: &Database, id: u64) -> (r: Response)
    ensures
        !r.persist,
        db.task_map().contains_key(id) ==> r.status == 200 && r.body == Body::Task(db.task_map()[id]),
        !db.task_map().contains_key(id) ==> r.status == 404 && is_text(r.body, "Task not found"@),
{
    match db.get(id) {
        Some(task) => Response { status: 200, body: Body::Task(task.copied()), persist: false },
        None => Response {
            status: 404,
            body: Body::Text("Task not found".to_owned()),
            persist: false,
        },
    }
}

/// Removes the task stored under `id`; an absent id is answered the same way.
pub fn delete_task(db: &mut Database, id: u64) -> (r: Response)
    ensures
        final(db).task_map() == old(db).task_map().remove(id),
        final(db).user_map() == old(db).user_map(),
        r.status == 200,
        is_text(r.body, "Task deleted"@),
        r.persist,
{
    db.delete(id);
    saved_with("Task deleted")
}

/// Replaces the task stored under the task's own id, or stores it anew.
pub fn update_task(db: &mut Database, task: Task) -> (r: Response)
    ensures
        final(db).task_map() == old(db).task_map().insert(task.id, task),
        final(db).user_map() == old(db).user_map(),
        r.status == 200,
        is_text(r.body, "Task updated"@),
        r.persist,
{
    db.insert(task);
    saved_with("Task updated")
}

/// Answers with every stored task, in no particular order; an empty store
/// gives an empty list.
pub fn read_all_task(db: &Database) -> (r: Response)
    ensures
        r.status == 200,
        !r.persist,
        r.body is Tasks,
        match r.body {
            Body::Tasks(v) => lists_values(db.task_map(), v@),
            _ => false,
        },
{
    let all = db.getAll();
    let mut tasks: Vec<Task> = Vec::new();
    let mut i: usize = 0;
    while i < all.len()
        invariant
            i <= all.len(),
            tasks.len() == i,
            forall|j: int| 0 <= j < i ==> #[trigger] tasks[j] == *all[j],
        decreases all.len() - i,
    {
        tasks.push(all[i].copied());
        i = i + 1;
    }
    assert(tasks@ =~= all@.map_values(|t: &Task| *t));
    Response { status: 200, body: Body::Tasks(tasks), persist: false }
}

/// Stores the user under its own id; usernames are not checked for clashes.
pub fn register_user(db: &mut Database, user: User) -> (r: Response)
    ensures
        final(db).user_map() == old(db).user_map().insert(user.id, user),
        final(db).task_map() == old(db).task_map(),
        r.status == 200,
        r.body == Body::Empty,
        r.persist,
{
    db.insert_user(user);
    Response { status: 200, body: Body::Empty, persist: true }
}

/// Checks a username and password against the stored users. An unknown
/// username and a wrong password are answered alike.
pub fn login(db: &Database, user: &User) -> (r: Response)
    ensures
        !r.persist,
        r.status == 200 || r.status == 400,
        r.status == 200 ==> is_text(r.body, "Login success"@) && exists|k: u64|
            db.user_map().contains_key(k) && #[trigger] db.user_map()[k].username@ == user.username@
                && db.user_map()[k].password@ == user.password@,
        r.status == 400 ==> is_text(r.body, "User not found"@),
        !has_username(db.user_map(), user.username@) ==> r.status == 400,
        unique_usernames(db.user_map()) ==> (r.status == 200 <==> exists|k: u64|
            db.user_map().contains_key(k) && #[trigger] db.user_map()[k].username@ == user.username@
                && db.user_map()[k].password@ == user.password@),
{
    match db.get_user_by_name(user.username.as_str()) {
        Some(stored) if stored.password == user.password => Response {
            status: 200,
            body: Body::Text("Login success".to_owned()),
            persist: false,
        },
        _ => Response {
            status: 400,
            body: Body::Text("User not found".to_owned()),
            persist: false,
        },
    }
}

} // verus!
