use std::collections::HashMap;
use vstd::prelude::*;
use crate::snapshot::{entry_keys, enumerates, map_of_entries, Snapshot};
use vstd::std_specs::iter::IteratorSpec;

verus! {

broadcast use vstd::std_specs::hash::group_hash_axioms;

/// A task record, keyed by its caller-supplied `id`.
#[derive(Debug)]
pub struct Task {
    pub id: u64,
    pub name: String,
    pub completed: bool,
}

/// A user record, keyed by its `id`; the password is kept verbatim.
#[derive(Debug)]
pub struct User {
    pub id: u64,
    pub username: String,
    pub password: String,
}

impl Task {
    /// A separately owned task equal to this one.
    pub fn copied(&self) -> (r: Task)
        ensures
            r == *self,
    {
        Task { id: self.id, name: self.name.clone(), completed: self.completed }
    }
}

impl User {
    /// A separately owned user equal to this one.
    pub fn copied(&self) -> (r: User)
        ensures
            r == *self,
    {
        User { id: self.id, username: self.username.clone(), password: self.password.clone() }
    }
}

/// `s` lists the values of `m`, one position for each key, in some order.
pub open spec fn lists_values<V>(m: Map<u64, V>, s: Seq<V>) -> bool {
    exists|ks: Seq<u64>|
        {
            &&& ks.len() == s.len()
            &&& ks.no_duplicates()
            &&& ks.to_set() == m.dom()
            &&& forall|i: int| 0 <= i < s.len() ==> #[trigger] s[i] == m[ks[i]]
        }
}

/// The keys of a walk over `m` that visits each entry once: distinct, and
/// together the whole domain.
proof fn lemma_walk_keys<V>(m: Map<u64, V>, s: Seq<(&u64, &V)>)
    requires
        s.len() == m.dom().len(),
        s.no_duplicates(),
        forall|i: int| 0 <= i < s.len() ==> m.contains_key(*s[i].0) && m[*s[i].0] == *s[i].1,
        forall|k: u64| m.contains_key(k) ==> s.contains((&k, &m[k])),
    ensures
        s.map_values(|kv: (&u64, &V)| *kv.0).no_duplicates(),
        s.map_values(|kv: (&u64, &V)| *kv.0).to_set() == m.dom(),
{
    let ks = s.map_values(|kv: (&u64, &V)| *kv.0);
    assert forall|i: int, j: int| 0 <= i < ks.len() && 0 <= j < ks.len() && i != j implies ks[i] != ks[j] by {
        assert(m.contains_key(*s[i].0));
        assert(m.contains_key(*s[j].0));
        if ks[i] == ks[j] {
            assert(s[i] == s[j]);
        }
    }
    assert forall|k: u64| m.contains_key(k) implies ks.to_set().contains(k) by {
        let i = choose|i: int| 0 <= i < s.len() && s[i] == (&k, &m[k]);
        assert(ks[i] == k);
    }
    assert forall|k: u64| ks.to_set().contains(k) implies m.contains_key(k) by {
        let i = choose|i: int| 0 <= i < ks.len() && ks[i] == k;
        assert(m.contains_key(*s[i].0));
    }
    assert(ks.to_set() =~= m.dom());
}

/// Every username in `m` belongs to one key only.
pub open spec fn unique_usernames(m: Map<u64, User>) -> bool {
    forall|a: u64, b: u64|
        #![trigger m[a], m[b]]
        m.contains_key(a) && m.contains_key(b) && m[a].username@ == m[b].username@ ==> a == b
}

/// Some user in `m` has the username `name`.
pub open spec fn has_username(m: Map<u64, User>, name: Seq<char>) -> bool {
    exists|k: u64| m.contains_key(k) && #[trigger] m[k].username@ == name
}

/// The whole store: tasks by id and users by id.
#[derive(Debug)]
pub struct Database {
    tasks: HashMap<u64, Task>,
    users: HashMap<u64, User>,
}

impl Database {
    /// The tasks of the store, by the key under which each was stored.
    pub closed spec fn task_map(&self) -> Map<u64, Task> {
        self.tasks@
    }

    /// The users of the store, by the key under which each was stored.
    pub closed spec fn user_map(&self) -> Map<u64, User> {
        self.users@
    }

    /// An empty store.
    pub fn new() -> (r: Self)
        ensures
            r.task_map() == Map::<u64, Task>::empty(),
            r.user_map() == Map::<u64, User>::empty(),
    {
        Self { tasks: HashMap::new(), users: HashMap::new() }
    }

    /// Stores `task` under its own id, replacing any task stored there.
    pub fn insert(&mut self, task: Task)
        ensures
            final(self).task_map() == old(self).task_map().insert(task.id, task),
            final(self).user_map() == old(self).user_map(),
    {
        self.tasks.insert(task.id, task);
    }

    /// The task stored under `id`, if any.
    pub fn get(&self, id: u64) -> (r: Option<&Task>)
        ensures
            r is Some <==> self.task_map().contains_key(id),
            r is Some ==> *r.unwrap() == self.task_map()[id],
    {
        self.tasks.get(&id)
    }

    /// Every stored task, once each, in no particular order.
    #[allow(non_snake_case)]
    pub fn getAll(&self) -> (r: Vec<&Task>)
        ensures
            lists_values(self.task_map(), r@.map_values(|t: &Task| *t)),
    {
        let mut r: Vec<&Task> = Vec::new();
        let ghost m = self.tasks@;
        let ghost s = self.tasks.iter().remaining();
        for kv in it: self.tasks.iter()
            invariant
                m == self.tasks@,
                s == it.seq(),
                r.len() == it.index(),
                forall|i: int| 0 <= i < r.len() ==> *r[i] == *s[i].1,
        {
            r.push(kv.1);
        }
        proof {
            let ks = s.map_values(|kv: (&u64, &Task)| *kv.0);
            lemma_walk_keys(m, s);
            let rv = r@.map_values(|t: &Task| *t);
            assert forall|i: int| 0 <= i < rv.len() implies #[trigger] rv[i] == m[ks[i]] by {
                assert(m.contains_key(*s[i].0));
            }
        }
        r
    }

    /// Removes the task stored under `id`; nothing changes when there is none.
    pub fn delete(&mut self, id: u64)
        ensures
            final(self).task_map() == old(self).task_map().remove(id),
            final(self).user_map() == old(self).user_map(),
            !old(self).task_map().contains_key(id) ==> final(self).task_map() == old(self).task_map(),
    {
        self.tasks.remove(&id);
        proof {
            if !old(self).tasks@.contains_key(id) {
                assert(old(self).tasks@.remove(id) =~= old(self).tasks@);
            }
        }
    }

    /// Stores `task` under `id`, which need not be the task's own id.
    pub fn update(&mut self, id: u64, task: Task)
        ensures
            final(self).task_map() == old(self).task_map().insert(id, task),
            final(self).user_map() == old(self).user_map(),
    {
        self.tasks.insert(id, task);
    }

    /// Stores `user` under its own id, replacing any user stored there.
    pub fn insert_user(&mut self, user: User)
        ensures
            final(self).user_map() == old(self).user_map().insert(user.id, user),
            final(self).task_map() == old(self).task_map(),
    {
        self.users.insert(user.id, user);
    }

    /// The user stored under `id`, if any.
    pub fn get_user(&self, id: u64) -> (r: Option<&User>)
        ensures
            r is Some <==> self.user_map().contains_key(id),
            r is Some ==> *r.unwrap() == self.user_map()[id],
    {
        self.users.get(&id)
    }

    /// A user whose username is `username`, found by scanning all users.
    /// With unique usernames it is the one match; otherwise it is one of them.
    pub fn get_user_by_name(&self, username: &str) -> (r: Option<&User>)
        ensures
            r is Some <==> has_username(self.user_map(), username@),
            r is Some ==> (r.unwrap().username@ == username@ && exists|k: u64|
                self.user_map().contains_key(k) && #[trigger] self.user_map()[k] == *r.unwrap()),
            unique_usernames(self.user_map()) ==> forall|k: u64|
                self.user_map().contains_key(k) && #[trigger] self.user_map()[k].username@ == username@
                    ==> r == Some(&self.user_map()[k]),
    {
        let wanted = username.to_owned();
        let ghost m = self.users@;
        let ghost s = self.users.iter().remaining();
        for kv in it: self.users.iter()
            invariant
                m == self.users@,
                s == it.seq(),
                wanted@ == username@,
                forall|i: int| 0 <= i < it.index() ==> (*s[i].1).username@ != username@,
        {
            if kv.1.username == wanted {
                proof {
                    assert(m.contains_key(*kv.0) && m[*kv.0] == *kv.1);
                    if unique_usernames(m) {
                        assert forall|k: u64| m.contains_key(k) && #[trigger] m[k].username@ == username@
                            implies Some(kv.1) == Some(&m[k]) by {
                            assert(m[*kv.0].username@ == m[k].username@);
                        }
                    }
                }
                return Some(kv.1);
            }
        }
        proof {
            assert forall|k: u64| m.contains_key(k) implies #[trigger] m[k].username@ != username@ by {
                assert(s.contains((&k, &m[k])));
                let i = choose|i: int| 0 <= i < s.len() && s[i] == (&k, &m[k]);
            }
        }
        None
    }

    /// Every entry of the store, each with the key it is stored under.
    pub fn snapshot(&self) -> (r: Snapshot)
        ensures
            enumerates(self.task_map(), r.tasks@),
            enumerates(self.user_map(), r.users@),
    {
        let mut tasks: Vec<(u64, Task)> = Vec::new();
        let ghost tm = self.tasks@;
        let ghost ts = self.tasks.iter().remaining();
        for kv in it: self.tasks.iter()
            invariant
                tm == self.tasks@,
                ts == it.seq(),
                tasks.len() == it.index(),
                forall|i: int| 0 <= i < tasks.len() ==> #[trigger] tasks[i] == (*ts[i].0, *ts[i].1),
        {
            tasks.push((*kv.0, kv.1.copied()));
        }
        let mut users: Vec<(u64, User)> = Vec::new();
        let ghost um = self.users@;
        let ghost us = self.users.iter().remaining();
        for kv in it: self.users.iter()
            invariant
                um == self.users@,
                us == it.seq(),
                users.len() == it.index(),
                forall|i: int| 0 <= i < users.len() ==> #[trigger] users[i] == (*us[i].0, *us[i].1),
        {
            users.push((*kv.0, kv.1.copied()));
        }
        proof {
            lemma_walk_keys(tm, ts);
            assert(entry_keys(tasks@) =~= ts.map_values(|kv: (&u64, &Task)| *kv.0));
            assert forall|i: int| 0 <= i < tasks@.len() implies #[trigger] tm[tasks@[i].0] == tasks@[i].1 by {
                assert(tasks[i] == (*ts[i].0, *ts[i].1));
            }
            lemma_walk_keys(um, us);
            assert(entry_keys(users@) =~= us.map_values(|kv: (&u64, &User)| *kv.0));
            assert forall|i: int| 0 <= i < users@.len() implies #[trigger] um[users@[i].0] == users@[i].1 by {
                assert(users[i] == (*us[i].0, *us[i].1));
            }
        }
        Snapshot { tasks, users }
    }

    /// The store holding the entries of `snapshot`, each stored under its key;
    /// where a key repeats, its last entry wins.
    pub fn from_snapshot(snapshot: Snapshot) -> (r: Self)
        ensures
            r.task_map() == map_of_entries(snapshot.tasks@),
            r.user_map() == map_of_entries(snapshot.users@),
    {
        let ghost ts = snapshot.tasks@;
        let ghost us = snapshot.users@;
        let mut db = Database::new();
        for e in it: snapshot.tasks.into_iter()
            invariant
                ts == it.seq(),
                db.tasks@ == map_of_entries(ts.take(it.index())),
                db.users@ == Map::<u64, User>::empty(),
        {
            assert(ts.take(it.index() + 1).drop_last() == ts.take(it.index()));
            db.tasks.insert(e.0, e.1);
        }
        assert(ts.take(ts.len() as int) == ts);
        for e in it: snapshot.users.into_iter()
            invariant
                us == it.seq(),
                db.tasks@ == map_of_entries(ts),
                db.users@ == map_of_entries(us.take(it.index())),
        {
            assert(us.take(it.index() + 1).drop_last() == us.take(it.index()));
            db.users.insert(e.0, e.1);
        }
        assert(us.take(us.len() as int) == us);
        db
    }
}

} // verus!
