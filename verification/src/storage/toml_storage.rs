//! The layout of the connections file: a map from id to connection.
use vstd::prelude::*;
use crate::model::connection::{Connection, ConnectionView};
use crate::model::store::{conn_views, lemma_name_pos, name_pos, sort_by_name, sort_connections, lemma_sort_by_name, sorted_by_name};
use crate::storage::table::{find_key_pos, key_pos, keys_increasing, lemma_key_pos, lemma_key_pos_is, lemma_upsert_at, lemma_upsert_increasing, upsert};
use crate::text::{
    lemma_text_less_irreflexive, lemma_text_less_total, lemma_text_less_transitive, owned, push_text, text_eq,
    text_less,
};

verus! {

broadcast use vstd::seq_lib::group_to_multiset_ensures;

/// The contents of the connections file: connections by id, in increasing
/// order of ids.
pub struct StorageFile {
    pub connections: Vec<(String, Connection)>,
}

/// The entries of a storage file as mathematical values.
pub open spec fn file_view(e: Seq<(String, Connection)>) -> Seq<(Seq<char>, ConnectionView)> {
    e.map_values(|p: (String, Connection)| (p.0@, p.1@))
}

/// The entries written for a list of connections: each connection stored
/// under its id, a later one replacing an earlier one with the same id.
pub open spec fn saved_entries(s: Seq<ConnectionView>) -> Seq<(Seq<char>, ConnectionView)>
    decreases s.len(),
{
    if s.len() == 0 {
        Seq::empty()
    } else {
        upsert(saved_entries(s.drop_last()), s.last().id, s.last())
    }
}

/// The values of an association list, in order.
pub open spec fn values_of(e: Seq<(Seq<char>, ConnectionView)>) -> Seq<ConnectionView> {
    e.map_values(|p: (Seq<char>, ConnectionView)| p.1)
}

/// The connections read from a file: its connections in order of ids,
/// then sorted by name.
pub open spec fn loaded_connections(e: Seq<(Seq<char>, ConnectionView)>) -> Seq<ConnectionView> {
    sort_by_name(values_of(e))
}

/// Whether no two connections share an id.
pub open spec fn distinct_ids(s: Seq<ConnectionView>) -> bool {
    forall|i: int, j: int| 0 <= i < j < s.len() ==> (#[trigger] s[i]).id != (#[trigger] s[j]).id
}

/// The path of the connections file in a configuration directory.
pub open spec fn path_in(dir: Seq<char>, name: Seq<char>) -> Seq<char> {
    if dir.len() == 0 {
        name
    } else if dir.last() == '/' {
        dir + name
    } else {
        dir + "/"@ + name
    }
}

/// Every entry written is stored under the id of its connection, which is
/// one of the saved connections, and the ids increase.
pub proof fn lemma_saved_entries_shape(s: Seq<ConnectionView>)
    ensures
        keys_increasing(saved_entries(s)),
        forall|m: int| 0 <= m < saved_entries(s).len() ==> (#[trigger] saved_entries(s)[m]).0 == saved_entries(s)[m].1.id && s.contains(saved_entries(s)[m].1),
    decreases s.len(),
{
    if s.len() > 0 {
        let s0 = s.drop_last();
        let x = s.last();
        lemma_saved_entries_shape(s0);
        let e = saved_entries(s0);
        lemma_upsert_increasing(e, x.id, x);
        lemma_upsert_at(e, x.id, x);
        lemma_key_pos(e, x.id);
        let u = saved_entries(s);
        assert forall|m: int| 0 <= m < u.len() implies (#[trigger] u[m]).0 == u[m].1.id && s.contains(u[m].1) by {
            let p = key_pos(e, x.id) as int;
            if u[m] == (x.id, x) {
                assert(s[s.len() - 1] == x);
            } else {
                let k: int = if p < e.len() && e[p].0 == x.id { m } else if m < p { m } else { m - 1 };
                assert(u[m] == e[k]);
                assert(s0.contains(e[k].1));
                let w = choose|w: int| 0 <= w < s0.len() && s0[w] == e[k].1;
                assert(s[w] == s0[w]);
            }
        }
    }
}

/// With distinct ids, the entries written hold exactly the saved
/// connections.
pub proof fn lemma_saved_values(s: Seq<ConnectionView>)
    requires
        distinct_ids(s),
    ensures
        values_of(saved_entries(s)).to_multiset() == s.to_multiset(),
    decreases s.len(),
{
    if s.len() > 0 {
        let s0 = s.drop_last();
        let x = s.last();
        assert(distinct_ids(s0)) by {
            assert forall|i: int, j: int| 0 <= i < j < s0.len() implies (#[trigger] s0[i]).id != (#[trigger] s0[j]).id by {
                assert(s0[i] == s[i] && s0[j] == s[j]);
            }
        }
        lemma_saved_values(s0);
        lemma_saved_entries_shape(s0);
        let e = saved_entries(s0);
        lemma_upsert_at(e, x.id, x);
        lemma_key_pos(e, x.id);
        let p = key_pos(e, x.id) as int;
        if p < e.len() && e[p].0 == x.id {
            assert(s0.contains(e[p].1));
            let w = choose|w: int| 0 <= w < s0.len() && s0[w] == e[p].1;
            assert(s[w] == s0[w]);
            assert(s[w].id == s[s.len() - 1].id);
            assert(false);
        }
        assert(values_of(e.insert(p, (x.id, x))) =~= values_of(e).insert(p, x));
        assert(s =~= s0.push(x));
    }
}

/// Saving connections with distinct ids and loading the file gives back
/// the same connections, in order of their names.
pub proof fn lemma_save_then_load(s: Seq<ConnectionView>)
    requires
        distinct_ids(s),
    ensures
        sorted_by_name(loaded_connections(saved_entries(s))),
        loaded_connections(saved_entries(s)).to_multiset() == s.to_multiset(),
{
    lemma_saved_values(s);
    lemma_sort_by_name(values_of(saved_entries(s)));
}

/// Whether `c` is the last connection of `s` with its id.
pub open spec fn last_with_id(s: Seq<ConnectionView>, c: ConnectionView) -> bool {
    exists|k: int| 0 <= k < s.len() && s[k] == c && forall|j: int| k < j < s.len() ==> (#[trigger] s[j]).id != c.id
}

/// The connections written for `s` are the last connection of each id.
proof fn lemma_saved_members(s: Seq<ConnectionView>)
    ensures
        forall|c: ConnectionView| #[trigger] values_of(saved_entries(s)).contains(c) <==> last_with_id(s, c),
    decreases s.len(),
{
    if s.len() > 0 {
        let s0 = s.drop_last();
        let x = s.last();
        lemma_saved_members(s0);
        lemma_saved_entries_shape(s0);
        let e = saved_entries(s0);
        lemma_upsert_at(e, x.id, x);
        lemma_key_pos(e, x.id);
        let p = key_pos(e, x.id) as int;
        let u = saved_entries(s);
        let present = p < e.len() && e[p].0 == x.id;
        // Where `x.id` is absent, no entry carries it.
        assert forall|m: int| 0 <= m < e.len() && !present implies #[trigger] e[m].0 != x.id by {
            if e[m].0 == x.id {
                if m < p {
                    lemma_text_less_irreflexive(x.id);
                } else {
                    lemma_text_less_total(e[p].0, x.id);
                    if m > p {
                        lemma_text_less_transitive(x.id, e[p].0, e[m].0);
                    }
                    lemma_text_less_irreflexive(x.id);
                }
            }
        }
        assert forall|c: ConnectionView| #[trigger] values_of(u).contains(c) <==> last_with_id(s, c) by {
            if values_of(u).contains(c) {
                let m = choose|m: int| 0 <= m < values_of(u).len() && values_of(u)[m] == c;
                if c == x {
                    assert(s[s.len() - 1] == x);
                } else {
                    let k: int = if present { m } else if m < p { m } else { m - 1 };
                    assert(values_of(u)[m] == u[m].1);
                    assert(u[m] == e[k]);
                    assert(k != p || !present);
                    assert(e[k].1.id == e[k].0);
                    assert(values_of(e)[k] == c);
                    assert(values_of(e).contains(c));
                    assert(last_with_id(s0, c));
                    let w = choose|w: int| 0 <= w < s0.len() && s0[w] == c && forall|j: int| w < j < s0.len() ==> (#[trigger] s0[j]).id != c.id;
                    if present {
                        assert(e[k].0 != e[p].0);
                    }
                    assert(c.id != x.id);
                    assert(s[w] == c);
                    assert forall|j: int| w < j < s.len() implies (#[trigger] s[j]).id != c.id by {
                        if j < s0.len() {
                            assert(s[j] == s0[j]);
                        }
                    }
                }
            }
            if last_with_id(s, c) {
                let k = choose|k: int| 0 <= k < s.len() && s[k] == c && forall|j: int| k < j < s.len() ==> (#[trigger] s[j]).id != c.id;
                if k == s.len() - 1 {
                    let q = p;
                    assert(u[q] == (x.id, x));
                    assert(values_of(u)[q] == x);
                } else {
                    assert(s[s.len() - 1].id != c.id);
                    assert(s0[k] == c);
                    assert forall|j: int| k < j < s0.len() implies (#[trigger] s0[j]).id != c.id by {
                        assert(s[j] == s0[j]);
                    }
                    assert(last_with_id(s0, c));
                    assert(values_of(e).contains(c));
                    let m = choose|m: int| 0 <= m < values_of(e).len() && values_of(e)[m] == c;
                    assert(e[m].1 == c);
                    assert(e[m].0 == c.id);
                    let q: int = if present { m } else if m < p { m } else { m + 1 };
                    if present {
                        assert(m != p);
                    }
                    assert(u[q] == e[m]);
                    assert(values_of(u)[q] == c);
                }
            }
        }
    }
}

/// Whether the ids of a list strictly increase.
pub open spec fn ids_increasing(v: Seq<ConnectionView>) -> bool {
    forall|i: int, j: int| 0 <= i < j < v.len() ==> text_less(#[trigger] v[i].id, #[trigger] v[j].id)
}

/// Sorting by name a list whose ids increase keeps the ids distinct and
/// puts connections with equal names in order of their ids.
proof fn lemma_sort_keeps_id_order(v: Seq<ConnectionView>)
    requires
        ids_increasing(v),
    ensures
        forall|i: int, j: int| 0 <= i < j < sort_by_name(v).len() ==> (#[trigger] sort_by_name(v)[i]).id != (#[trigger] sort_by_name(v)[j]).id,
        forall|i: int, j: int| 0 <= i < j < sort_by_name(v).len() && sort_by_name(v)[i].name == sort_by_name(v)[j].name
            ==> text_less(#[trigger] sort_by_name(v)[i].id, #[trigger] sort_by_name(v)[j].id),
    decreases v.len(),
{
    if v.len() > 0 {
        let v0 = v.drop_last();
        let x = v.last();
        assert(ids_increasing(v0)) by {
            assert forall|i: int, j: int| 0 <= i < j < v0.len() implies text_less(#[trigger] v0[i].id, #[trigger] v0[j].id) by {
                assert(v0[i] == v[i] && v0[j] == v[j]);
            }
        }
        lemma_sort_keeps_id_order(v0);
        lemma_sort_by_name(v0);
        let t = sort_by_name(v0);
        lemma_name_pos(t, x.name);
        let p = name_pos(t, x.name) as int;
        let u = sort_by_name(v);
        assert(u == t.insert(p, x));
        // Every connection of `t` comes before `x` in `v`.
        assert forall|a: int| 0 <= a < t.len() implies text_less(#[trigger] t[a].id, x.id) by {
            assert(t.to_multiset().count(t[a]) > 0);
            assert(v0.contains(t[a]));
            let w = choose|w: int| 0 <= w < v0.len() && v0[w] == t[a];
            assert(v[w] == t[a] && v[v.len() - 1] == x);
        }
        lemma_text_less_irreflexive(x.id);
        lemma_text_less_irreflexive(x.name);
        assert forall|i: int, j: int| 0 <= i < j < u.len() implies (#[trigger] u[i]).id != (#[trigger] u[j]).id
            && (u[i].name == u[j].name ==> text_less(u[i].id, u[j].id)) by {
            if i == p {
                assert(u[j] == t[j - 1]);
                if j - 1 > p {
                    assert(!text_less(t[j - 1].name, t[p].name));
                }
                if u[j].name == x.name {
                    if j - 1 > p {
                        assert(text_less(x.name, t[p].name));
                    }
                    assert(false);
                }
            } else if j == p {
                assert(u[i] == t[i]);
            } else {
                let ti = if i < p { i } else { i - 1 };
                let tj = if j < p { j } else { j - 1 };
                assert(u[i] == t[ti] && u[j] == t[tj]);
            }
        }
    }
}

/// Saving any list of connections and loading the file gives, for each id,
/// the last connection saved with it, and nothing else: sorted by name,
/// connections with equal names in order of their ids.
pub proof fn lemma_save_then_load_all(s: Seq<ConnectionView>)
    ensures
        sorted_by_name(loaded_connections(saved_entries(s))),
        forall|c: ConnectionView| #[trigger] loaded_connections(saved_entries(s)).contains(c) <==> last_with_id(s, c),
        forall|i: int, j: int| 0 <= i < j < loaded_connections(saved_entries(s)).len()
            ==> (#[trigger] loaded_connections(saved_entries(s))[i]).id != (#[trigger] loaded_connections(saved_entries(s))[j]).id,
        forall|i: int, j: int| 0 <= i < j < loaded_connections(saved_entries(s)).len()
            && loaded_connections(saved_entries(s))[i].name == loaded_connections(saved_entries(s))[j].name
            ==> text_less(#[trigger] loaded_connections(saved_entries(s))[i].id, #[trigger] loaded_connections(saved_entries(s))[j].id),
{
    let e = saved_entries(s);
    let v = values_of(e);
    lemma_saved_entries_shape(s);
    lemma_saved_members(s);
    lemma_sort_by_name(v);
    assert(ids_increasing(v)) by {
        assert forall|i: int, j: int| 0 <= i < j < v.len() implies text_less(#[trigger] v[i].id, #[trigger] v[j].id) by {
            assert(e[i].0 == v[i].id && e[j].0 == v[j].id);
        }
    }
    lemma_sort_keeps_id_order(v);
    let l = loaded_connections(e);
    assert forall|c: ConnectionView| #[trigger] l.contains(c) <==> last_with_id(s, c) by {
        assert(l.to_multiset().count(c) == v.to_multiset().count(c));
        if l.contains(c) {
            assert(l.to_multiset().count(c) > 0);
        }
        if v.contains(c) {
            assert(v.to_multiset().count(c) > 0);
        }
    }
}

/// Where the connections are stored.
pub struct TomlStorage {
    pub path: String,
}

impl TomlStorage {
    /// The storage in `connections.toml` of the configuration directory `dir`.
    pub fn new(dir: &str) -> (s: TomlStorage)
        ensures
            s.path@ == path_in(dir@, "connections.toml"@),
    {
        let v = crate::text::chars_of(dir);
        let mut path = owned(dir);
        if v.len() > 0 && v[v.len() - 1] != '/' {
            push_text(&mut path, "/");
        }
        push_text(&mut path, "connections.toml");
        TomlStorage { path }
    }

    /// The connections of a file read from disk, sorted by name (connections
    /// with equal names in order of their ids).
    pub fn load(file: StorageFile) -> (r: Vec<Connection>)
        ensures
            conn_views(r@) == loaded_connections(file_view(file.connections@)),
    {
        let mut values: Vec<Connection> = Vec::new();
        let mut src = file.connections;
        let ghost orig = file_view(src@);
        let ghost mut i: int = 0;
        assert(orig.skip(0) =~= orig);
        while src.len() > 0
            invariant
                0 <= i <= orig.len(),
                file_view(src@) == orig.skip(i),
                conn_views(values@) == values_of(orig.take(i)),
            decreases src.len(),
        {
            assert(file_view(src@).len() == src@.len());
            assert(file_view(src@)[0] == (src@[0].0@, src@[0].1@));
            assert(orig.skip(i)[0] == orig[i]);
            let ghost old_src = src@;
            let (_, c) = src.remove(0);
            assert(file_view(src@) =~= file_view(old_src).drop_first());
            assert(orig.skip(i).drop_first() =~= orig.skip(i + 1));
            let ghost before = values@;
            values.push(c);
            assert(conn_views(values@) =~= conn_views(before).push(orig[i].1));
            assert(values_of(orig.take(i + 1)) =~= values_of(orig.take(i)).push(orig[i].1));
            proof {
                i = i + 1;
            }
        }
        assert(orig.take(i) =~= orig);
        sort_connections(values)
    }

    /// The file contents for a list of connections: each stored under its
    /// id, a later connection replacing an earlier one with the same id.
    pub fn save(connections: &[Connection]) -> (file: StorageFile)
        ensures
            file_view(file.connections@) == saved_entries(conn_views(connections@)),
    {
        let mut entries: Vec<(String, Connection)> = Vec::new();
        let ghost s = conn_views(connections@);
        let mut i: usize = 0;
        while i < connections.len()
            invariant
                i <= connections.len(),
                s == conn_views(connections@),
                file_view(entries@) == saved_entries(s.take(i as int)),
                keys_increasing(file_view(entries@)),
            decreases connections.len() - i,
        {
            let c = connections[i].duplicate();
            assert(c@ == s[i as int]);
            assert(s.take(i + 1).drop_last() =~= s.take(i as int));
            let ghost e = file_view(entries@);
            proof {
                lemma_upsert_at(e, c@.id, c@);
                lemma_upsert_increasing(e, c@.id, c@);
            }
            let p = find_key_pos(&entries, c.id.as_str());
            proof {
                assert forall|m: int| 0 <= m < p implies text_less(#[trigger] e[m].0, c@.id) by {
                    assert(e[m].0 == entries@[m].0@);
                }
                if p < entries.len() {
                    assert(e[p as int].0 == entries@[p as int].0@);
                }
                lemma_key_pos_is(e, c@.id, p as int);
            }
            let ghost before = entries@;
            if p < entries.len() && text_eq(entries[p].0.as_str(), c.id.as_str()) {
                let key = c.id.clone();
                entries.set(p, (key, c));
                assert(file_view(entries@) =~= e.update(p as int, (s[i as int].id, s[i as int])));
            } else {
                let key = c.id.clone();
                entries.insert(p, (key, c));
                assert(file_view(entries@) =~= e.insert(p as int, (s[i as int].id, s[i as int])));
            }
            i = i + 1;
        }
        assert(s.take(connections.len() as int) =~= s);
        StorageFile { connections: entries }
    }
}

} // verus!
