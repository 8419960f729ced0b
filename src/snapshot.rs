use crate::store::{Task, User};
use vstd::prelude::*;

verus! {

/// The whole store flattened into `(key, record)` entries: the form in which
/// it is written out and read back.
#[derive(Debug)]
pub struct Snapshot {
    pub tasks: Vec<(u64, Task)>,
    pub users: Vec<(u64, User)>,
}

/// The keys of a list of entries, in order.
pub open spec fn entry_keys<V>(s: Seq<(u64, V)>) -> Seq<u64> {
    s.map_values(|e: (u64, V)| e.0)
}

/// The map built by storing the entries of `s` one after another; where a key
/// repeats, its last entry wins.
pub open spec fn map_of_entries<V>(s: Seq<(u64, V)>) -> Map<u64, V>
    decreases s.len(),
{
    if s.len() == 0 {
        Map::empty()
    } else {
        map_of_entries(s.drop_last()).insert(s.last().0, s.last().1)
    }
}

/// `s` holds each entry of `m` exactly once, in some order.
pub open spec fn enumerates<V>(m: Map<u64, V>, s: Seq<(u64, V)>) -> bool {
    &&& entry_keys(s).no_duplicates()
    &&& entry_keys(s).to_set() == m.dom()
    &&& forall|i: int| 0 <= i < s.len() ==> #[trigger] m[s[i].0] == s[i].1
}

/// With distinct keys, the map of a list of entries holds exactly those entries.
pub proof fn lemma_distinct_entries<V>(s: Seq<(u64, V)>)
    requires
        entry_keys(s).no_duplicates(),
    ensures
        map_of_entries(s).dom() == entry_keys(s).to_set(),
        forall|i: int| 0 <= i < s.len() ==> #[trigger] map_of_entries(s)[s[i].0] == s[i].1,
    decreases s.len(),
{
    if s.len() > 0 {
        let p = s.drop_last();
        assert(entry_keys(p) == entry_keys(s).drop_last());
        lemma_distinct_entries(p);
        let ks = entry_keys(s);
        assert(map_of_entries(s).dom() =~= ks.to_set()) by {
            assert forall|k: u64| ks.to_set().contains(k) implies map_of_entries(s).dom().contains(k) by {
                let i = choose|i: int| 0 <= i < ks.len() && ks[i] == k;
                if i < s.len() - 1 {
                    assert(entry_keys(p)[i] == k);
                }
            }
            assert forall|k: u64| map_of_entries(s).dom().contains(k) implies ks.to_set().contains(k) by {
                if k != s.last().0 {
                    let i = choose|i: int| 0 <= i < entry_keys(p).len() && entry_keys(p)[i] == k;
                    assert(ks[i] == k);
                } else {
                    assert(ks[s.len() - 1] == k);
                }
            }
        }
        assert forall|i: int| 0 <= i < s.len() implies #[trigger] map_of_entries(s)[s[i].0] == s[i].1 by {
            if i < s.len() - 1 {
                assert(ks[i] != ks[s.len() - 1]);
                assert(p[i] == s[i]);
            }
        }
    }
}

/// Reading back what was written out restores the store: the map rebuilt from
/// any snapshot that enumerates a map is that map.
pub proof fn lemma_load_of_save<V>(m: Map<u64, V>, s: Seq<(u64, V)>)
    requires
        enumerates(m, s),
    ensures
        map_of_entries(s) == m,
{
    lemma_distinct_entries(s);
    assert forall|k: u64| #[trigger] m.contains_key(k) implies map_of_entries(s)[k] == m[k] by {
        let i = choose|i: int| 0 <= i < entry_keys(s).len() && entry_keys(s)[i] == k;
        assert(s[i].0 == k);
    }
    assert(map_of_entries(s) =~= m);
}

} // verus!
