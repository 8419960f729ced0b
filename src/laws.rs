use crate::snapshot::{enumerates, lemma_load_of_save, map_of_entries};
use crate::store::{Database, Task, User};
use vstd::prelude::*;

verus! {

/// A store written out and read back holds the same tasks and users under the
/// same keys: `restored` is rebuilt from a snapshot taken of `db`.
pub proof fn lemma_save_then_load(
    db: &Database,
    saved_tasks: Seq<(u64, Task)>,
    saved_users: Seq<(u64, User)>,
    restored: &Database,
)
    requires
        enumerates(db.task_map(), saved_tasks),
        enumerates(db.user_map(), saved_users),
        restored.task_map() == map_of_entries(saved_tasks),
        restored.user_map() == map_of_entries(saved_users),
    ensures
        restored.task_map() == db.task_map(),
        restored.user_map() == db.user_map(),
{
    lemma_load_of_save(db.task_map(), saved_tasks);
    lemma_load_of_save(db.user_map(), saved_users);
}

/// Storing the same task twice leaves the store as storing it once does:
/// `once` is `before` after one insert of `task`, `twice` is `once` after another.
pub proof fn lemma_insert_twice(before: &Database, once: &Database, twice: &Database, task: Task)
    requires
        once.task_map() == before.task_map().insert(task.id, task),
        once.user_map() == before.user_map(),
        twice.task_map() == once.task_map().insert(task.id, task),
        twice.user_map() == once.user_map(),
    ensures
        twice.task_map() == once.task_map(),
        twice.user_map() == once.user_map(),
{
    assert(once.task_map().insert(task.id, task) =~= once.task_map());
}

/// Right after a task is stored, looking up its id finds that very task.
pub proof fn lemma_get_after_insert(before: &Database, after: &Database, task: Task)
    requires
        after.task_map() == before.task_map().insert(task.id, task),
    ensures
        after.task_map().contains_key(task.id),
        after.task_map()[task.id] == task,
{
}

/// Deleting an id under which nothing is stored changes nothing.
pub proof fn lemma_delete_absent(before: &Database, after: &Database, id: u64)
    requires
        !before.task_map().contains_key(id),
        after.task_map() == before.task_map().remove(id),
        after.user_map() == before.user_map(),
    ensures
        after.task_map() == before.task_map(),
        after.user_map() == before.user_map(),
{
    assert(before.task_map().remove(id) =~= before.task_map());
}

} // verus!
