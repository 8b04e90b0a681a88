//! The list of saved connections, kept in order of their names.
use vstd::prelude::*;
use crate::model::connection::{matches_query_spec, Connection, ConnectionView};
use crate::text::{
    lemma_text_less_asymmetric, lemma_text_less_total,
    lemma_text_less_transitive, text_before, text_less,
};

verus! {

broadcast use vstd::seq_lib::group_to_multiset_ensures;

/// The views of a list of connections.
pub open spec fn conn_views(v: Seq<Connection>) -> Seq<ConnectionView> {
    v.map_values(|c: Connection| c@)
}

/// Where a connection named `name` goes in a list ordered by name: before
/// the first connection whose name is greater, so after those with the
/// same name.
pub open spec fn name_pos(t: Seq<ConnectionView>, name: Seq<char>) -> nat
    decreases t.len(),
{
    if t.len() == 0 {
        0
    } else if text_less(name, t[0].name) {
        0
    } else {
        1 + name_pos(t.drop_first(), name)
    }
}

/// `s` sorted by name, keeping the order of connections with equal names
/// (each connection in turn placed after all earlier ones whose name is not
/// greater).
pub open spec fn sort_by_name(s: Seq<ConnectionView>) -> Seq<ConnectionView>
    decreases s.len(),
{
    if s.len() == 0 {
        s
    } else {
        let t = sort_by_name(s.drop_last());
        t.insert(name_pos(t, s.last().name) as int, s.last())
    }
}

/// Whether a list of connections is in order of their names.
pub open spec fn sorted_by_name(t: Seq<ConnectionView>) -> bool {
    forall|i: int, j: int| 0 <= i < j < t.len() ==> !text_less(#[trigger] t[j].name, #[trigger] t[i].name)
}

/// The insert position lies in the list, after every name that is not
/// greater and at a greater name.
pub proof fn lemma_name_pos(t: Seq<ConnectionView>, name: Seq<char>)
    ensures
        name_pos(t, name) <= t.len(),
        forall|k: int| 0 <= k < name_pos(t, name) ==> !text_less(name, #[trigger] t[k].name),
        name_pos(t, name) < t.len() ==> text_less(name, t[name_pos(t, name) as int].name),
    decreases t.len(),
{
    if t.len() > 0 && !text_less(name, t[0].name) {
        lemma_name_pos(t.drop_first(), name);
        assert forall|k: int| 0 <= k < name_pos(t, name) implies !text_less(name, #[trigger] t[k].name) by {
            if k > 0 {
                assert(t[k] == t.drop_first()[k - 1]);
            }
        }
    }
}

/// The insert position is the first position at a greater name.
proof fn lemma_name_pos_is(t: Seq<ConnectionView>, name: Seq<char>, j: int)
    requires
        0 <= j <= t.len(),
        forall|k: int| 0 <= k < j ==> !text_less(name, #[trigger] t[k].name),
        j < t.len() ==> text_less(name, t[j].name),
    ensures
        name_pos(t, name) == j,
    decreases t.len(),
{
    if j > 0 {
        assert(!text_less(name, t[0].name));
        assert forall|k: int| 0 <= k < j - 1 implies !text_less(name, #[trigger] t.drop_first()[k].name) by {
            assert(t.drop_first()[k] == t[k + 1]);
        }
        lemma_name_pos_is(t.drop_first(), name, j - 1);
    }
}

/// Inserting at the insert position keeps a list in order of names.
proof fn lemma_insert_sorted(t: Seq<ConnectionView>, x: ConnectionView)
    requires
        sorted_by_name(t),
    ensures
        sorted_by_name(t.insert(name_pos(t, x.name) as int, x)),
{
    lemma_name_pos(t, x.name);
    let p = name_pos(t, x.name) as int;
    let u = t.insert(p, x);
    assert forall|i: int, j: int| 0 <= i < j < u.len() implies !text_less(#[trigger] u[j].name, #[trigger] u[i].name) by {
        if i == p {
            // u[j] == t[j - 1] with j - 1 >= p: its name is greater than x's.
            let tj = t[j - 1];
            if j - 1 > p {
                assert(!text_less(tj.name, t[p].name));
                lemma_text_less_total(tj.name, t[p].name);
                if tj.name != t[p].name {
                    lemma_text_less_transitive(x.name, t[p].name, tj.name);
                }
            }
            assert(text_less(x.name, tj.name));
            lemma_text_less_asymmetric(x.name, tj.name);
        } else if j == p {
            assert(!text_less(x.name, t[i].name));
        } else {
            let ti = if i < p { t[i] } else { t[i - 1] };
            let tj = if j < p { t[j] } else { t[j - 1] };
            assert(ti == u[i] && tj == u[j]);
        }
    }
}

/// A list sorted by name is in order of names and holds the same connections.
pub proof fn lemma_sort_by_name(s: Seq<ConnectionView>)
    ensures
        sorted_by_name(sort_by_name(s)),
        sort_by_name(s).to_multiset() == s.to_multiset(),
        sort_by_name(s).len() == s.len(),
    decreases s.len(),
{
    if s.len() > 0 {
        lemma_sort_by_name(s.drop_last());
        let t = sort_by_name(s.drop_last());
        lemma_name_pos(t, s.last().name);
        lemma_insert_sorted(t, s.last());
        assert(s =~= s.drop_last().push(s.last()));
    }
}

/// `v` sorted by name, keeping the order of connections with equal names.
pub fn sort_connections(v: Vec<Connection>) -> (r: Vec<Connection>)
    ensures
        conn_views(r@) == sort_by_name(conn_views(v@)),
{
    let ghost orig = conn_views(v@);
    let mut src = v;
    let mut out: Vec<Connection> = Vec::new();
    let ghost mut i: int = 0;
    assert(orig.skip(0) =~= orig);
    assert(orig.take(0) =~= Seq::<ConnectionView>::empty());
    while src.len() > 0
        invariant
            0 <= i <= orig.len(),
            conn_views(src@) == orig.skip(i),
            conn_views(out@) == sort_by_name(orig.take(i)),
        decreases src.len(),
    {
        assert(conn_views(src@).len() == src@.len());
        assert(conn_views(src@)[0] == src@[0]@);
        assert(orig.skip(i)[0] == orig[i]);
        let ghost old_src = src@;
        let x = src.remove(0);
        assert(conn_views(src@) =~= conn_views(old_src).drop_first());
        assert(orig.skip(i).drop_first() =~= orig.skip(i + 1));
        assert(x@ == orig[i]);
        let mut j: usize = 0;
        while j < out.len() && !text_before(x.name.as_str(), out[j].name.as_str())
            invariant
                j <= out.len(),
                forall|k: int| 0 <= k < j ==> !text_less(x@.name, #[trigger] conn_views(out@)[k].name),
            decreases out.len() - j,
        {
            assert(conn_views(out@)[j as int] == out@[j as int]@);
            j = j + 1;
        }
        proof {
            if j < out.len() {
                assert(conn_views(out@)[j as int] == out@[j as int]@);
            }
            lemma_name_pos_is(conn_views(out@), x@.name, j as int);
            assert(orig.take(i + 1).drop_last() =~= orig.take(i));
            assert(orig.take(i + 1).last() == orig[i]);
        }
        let ghost before = out@;
        out.insert(j, x);
        assert(conn_views(out@) =~= conn_views(before).insert(j as int, x@));
        assert(conn_views(src@) =~= orig.skip(i + 1));
        proof {
            i = i + 1;
        }
    }
    assert(orig.take(i) =~= orig);
    out
}

/// The saved connections.
pub struct ConnectionStore {
    connections: Vec<Connection>,
}

/// The position of the first connection with id `id`, or the length of
/// `t` when there is none.
pub open spec fn index_of_id(t: Seq<ConnectionView>, id: Seq<char>) -> nat
    decreases t.len(),
{
    if t.len() == 0 {
        0
    } else if t[0].id == id {
        0
    } else {
        1 + index_of_id(t.drop_first(), id)
    }
}

/// The first-position search finds the first connection with the id.
pub proof fn lemma_index_of_id(t: Seq<ConnectionView>, id: Seq<char>)
    ensures
        index_of_id(t, id) <= t.len(),
        forall|k: int| 0 <= k < index_of_id(t, id) ==> (#[trigger] t[k]).id != id,
        index_of_id(t, id) < t.len() ==> t[index_of_id(t, id) as int].id == id,
    decreases t.len(),
{
    if t.len() > 0 && t[0].id != id {
        lemma_index_of_id(t.drop_first(), id);
        assert forall|k: int| 0 <= k < index_of_id(t, id) implies (#[trigger] t[k]).id != id by {
            if k > 0 {
                assert(t[k] == t.drop_first()[k - 1]);
            }
        }
    }
}

/// The first-position search stops at the first connection with the id.
proof fn lemma_index_of_id_is(t: Seq<ConnectionView>, id: Seq<char>, j: int)
    requires
        0 <= j <= t.len(),
        forall|k: int| 0 <= k < j ==> (#[trigger] t[k]).id != id,
        j < t.len() ==> t[j].id == id,
    ensures
        index_of_id(t, id) == j,
    decreases t.len(),
{
    if j > 0 {
        assert(t[0].id != id);
        assert forall|k: int| 0 <= k < j - 1 implies (#[trigger] t.drop_first()[k]).id != id by {
            assert(t.drop_first()[k] == t[k + 1]);
        }
        lemma_index_of_id_is(t.drop_first(), id, j - 1);
    }
}

/// The views of a list of connection references.
pub open spec fn ref_views(v: Seq<&Connection>) -> Seq<ConnectionView> {
    v.map_values(|c: &Connection| c@)
}

/// The connections that a search shows: all of them for an empty query,
/// otherwise those that match it.
pub open spec fn search_result(t: Seq<ConnectionView>, query: Seq<char>) -> Seq<ConnectionView> {
    if query.len() == 0 {
        t
    } else {
        t.filter(|c: ConnectionView| matches_query_spec(c, query))
    }
}

/// Whether a list of groups is as the group view shows it: named groups in
/// strictly increasing order, then at most one entry for ungrouped
/// connections, and exactly the groups that occur in `t`.
pub open spec fn groups_of(t: Seq<ConnectionView>, g: Seq<Option<Seq<char>>>) -> bool {
    &&& forall|i: int, j: int|
        0 <= i < j < g.len() ==> (#[trigger] g[i]) is Some && ((#[trigger] g[j]) is Some ==> text_less(
            g[i]->0,
            g[j]->0,
        ))
    &&& forall|x: Option<Seq<char>>| g.contains(x) <==> exists|k: int| 0 <= k < t.len() && (#[trigger] t[k]).group == x
}

/// The views of a list of optional group names.
pub open spec fn group_views(v: Seq<Option<String>>) -> Seq<Option<Seq<char>>> {
    v.map_values(|o: Option<String>| crate::text::opt_view(o))
}

/// Whether a list of texts is in strictly increasing order.
pub open spec fn strictly_increasing(v: Seq<Seq<char>>) -> bool {
    forall|i: int, j: int| 0 <= i < j < v.len() ==> text_less(#[trigger] v[i], #[trigger] v[j])
}

/// Inserting a text at the first position whose text is not less keeps a
/// list strictly increasing when the text is not already there.
proof fn lemma_insert_increasing(v: Seq<Seq<char>>, g: Seq<char>, p: int)
    requires
        strictly_increasing(v),
        0 <= p <= v.len(),
        forall|k: int| 0 <= k < p ==> text_less(#[trigger] v[k], g),
        p < v.len() ==> !text_less(v[p], g) && v[p] != g,
    ensures
        strictly_increasing(v.insert(p, g)),
{
    let u = v.insert(p, g);
    if p < v.len() {
        lemma_text_less_total(v[p], g);
        assert(text_less(g, v[p]));
    }
    assert forall|m: int| p <= m < v.len() implies text_less(g, #[trigger] v[m]) by {
        if m > p {
            lemma_text_less_transitive(g, v[p], v[m]);
        }
    }
    assert forall|i: int, j: int| 0 <= i < j < u.len() implies text_less(#[trigger] u[i], #[trigger] u[j]) by {
        if i == p {
            assert(u[j] == v[j - 1]);
        } else if j == p {
        } else if i < p && j > p {
            assert(u[j] == v[j - 1]);
            lemma_text_less_transitive(v[i], g, v[j - 1]);
        } else if i > p {
            assert(u[i] == v[i - 1] && u[j] == v[j - 1]);
        }
    }
}

/// Adding a connection leaves the store in order of names, holding the
/// connections it held before and the new one.
pub proof fn lemma_add_keeps_order(s: Seq<ConnectionView>, c: ConnectionView)
    ensures
        sorted_by_name(sort_by_name(s.push(c))),
        sort_by_name(s.push(c)).to_multiset() == s.to_multiset().insert(c),
{
    lemma_sort_by_name(s.push(c));
}

/// After adding a connection, a search by its id finds a connection.
pub proof fn lemma_added_is_found(s: Seq<ConnectionView>, c: ConnectionView)
    ensures
        index_of_id(sort_by_name(s.push(c)), c.id) < s.len() + 1,
{
    let t = sort_by_name(s.push(c));
    lemma_sort_by_name(s.push(c));
    assert(s.push(c).to_multiset().contains(c));
    assert(t.to_multiset().contains(c));
    assert(t.contains(c));
    let k = choose|k: int| 0 <= k < t.len() && t[k] == c;
    lemma_index_of_id(t, c.id);
    if index_of_id(t, c.id) == t.len() {
        assert(t[k].id != c.id);
    }
}

/// Every connection a filter keeps was in the list.
proof fn lemma_filter_from(s: Seq<ConnectionView>, pred: spec_fn(ConnectionView) -> bool)
    ensures
        forall|i: int| 0 <= i < s.filter(pred).len() ==> s.contains(#[trigger] s.filter(pred)[i]),
    decreases s.len(),
{
    reveal_with_fuel(Seq::<ConnectionView>::filter, 1);
    if s.len() > 0 {
        let init = s.drop_last();
        lemma_filter_from(init, pred);
        let f = init.filter(pred);
        let g = s.filter(pred);
        assert forall|i: int| 0 <= i < g.len() implies s.contains(#[trigger] g[i]) by {
            if i < f.len() {
                assert(g[i] == f[i]);
                assert(init.contains(f[i]));
                let k = choose|k: int| 0 <= k < init.len() && init[k] == f[i];
                assert(s[k] == init[k]);
            } else {
                assert(g[i] == s.last());
                assert(s[s.len() - 1] == s.last());
            }
        }
    }
}

/// Removing connections keeps a list ordered by name ordered.
pub proof fn lemma_remove_keeps_order(s: Seq<ConnectionView>, id: Seq<char>)
    requires
        sorted_by_name(s),
    ensures
        sorted_by_name(s.filter(|c: ConnectionView| c.id != id)),
    decreases s.len(),
{
    let pred = |c: ConnectionView| c.id != id;
    reveal_with_fuel(Seq::<ConnectionView>::filter, 1);
    if s.len() > 0 {
        let init = s.drop_last();
        assert(sorted_by_name(init)) by {
            assert forall|i: int, j: int| 0 <= i < j < init.len() implies !text_less(#[trigger] init[j].name, #[trigger] init[i].name) by {
                assert(init[i] == s[i] && init[j] == s[j]);
            }
        }
        lemma_remove_keeps_order(init, id);
        lemma_filter_from(init, pred);
        let f = init.filter(pred);
        let g = s.filter(pred);
        if s.last().id != id {
            assert(g == f.push(s.last()));
            assert forall|i: int, j: int| 0 <= i < j < g.len() implies !text_less(#[trigger] g[j].name, #[trigger] g[i].name) by {
                if j == f.len() {
                    assert(init.contains(f[i]));
                    let k = choose|k: int| 0 <= k < init.len() && init[k] == f[i];
                    assert(s[k] == f[i]);
                    assert(s[s.len() - 1] == s.last());
                } else {
                    assert(g[i] == f[i] && g[j] == f[j]);
                }
            }
        } else {
            assert(g == f);
        }
    }
}

/// After removing an id, no connection with that id is found, and every
/// connection with another id is still there.
pub proof fn lemma_remove_effect(s: Seq<ConnectionView>, id: Seq<char>)
    ensures
        index_of_id(s.filter(|c: ConnectionView| c.id != id), id) == s.filter(|c: ConnectionView| c.id != id).len(),
        forall|k: int| 0 <= k < s.len() && (#[trigger] s[k]).id != id ==> s.filter(|c: ConnectionView| c.id != id).contains(s[k]),
{
    broadcast use vstd::seq_lib::group_filter_ensures;
    let pred = |c: ConnectionView| c.id != id;
    let t = s.filter(pred);
    lemma_index_of_id(t, id);
    if index_of_id(t, id) < t.len() {
        assert(pred(t[index_of_id(t, id) as int]));
    }
}

impl View for ConnectionStore {
    type V = Seq<ConnectionView>;

    closed spec fn view(&self) -> Seq<ConnectionView> {
        conn_views(self.connections@)
    }
}

impl ConnectionStore {
    /// A store holding `connections` in the given order.
    pub fn new(connections: Vec<Connection>) -> (s: ConnectionStore)
        ensures
            s@ == conn_views(connections@),
    {
        ConnectionStore { connections }
    }

    /// All connections, in order.
    pub fn all(&self) -> (r: &[Connection])
        ensures
            conn_views(r@) == self@,
    {
        self.connections.as_slice()
    }

    /// Adds a connection and puts the list in order of names; connections
    /// with equal names keep their order, the new one after the others.
    pub fn add(&mut self, conn: Connection)
        ensures
            final(self)@ == sort_by_name(old(self)@.push(conn@)),
    {
        let ghost before = self.connections@;
        let mut v: Vec<Connection> = Vec::new();
        std::mem::swap(&mut v, &mut self.connections);
        v.push(conn);
        assert(conn_views(v@) =~= conn_views(before).push(conn@));
        self.connections = sort_connections(v);
    }

    /// Removes every connection with id `id`; tells whether one was removed.
    pub fn remove(&mut self, id: &str) -> (removed: bool)
        ensures
            final(self)@ == old(self)@.filter(|c: ConnectionView| c.id != id@),
            removed == (exists|i: int| 0 <= i < old(self)@.len() && old(self)@[i].id == id@),
            !removed ==> final(self)@ == old(self)@,
    {
        let ghost orig = self@;
        let mut kept: Vec<Connection> = Vec::new();
        let mut src: Vec<Connection> = Vec::new();
        std::mem::swap(&mut src, &mut self.connections);
        let mut removed = false;
        let ghost mut i: int = 0;
        assert(orig.skip(0) =~= orig);
        assert(orig.take(0) =~= Seq::<ConnectionView>::empty());
        proof {
            reveal_with_fuel(Seq::<ConnectionView>::filter, 1);
        }
        while src.len() > 0
            invariant
                0 <= i <= orig.len(),
                conn_views(src@) == orig.skip(i),
                conn_views(kept@) == orig.take(i).filter(|c: ConnectionView| c.id != id@),
                removed == (exists|k: int| 0 <= k < i && orig[k].id == id@),
                !removed ==> conn_views(kept@) == orig.take(i),
            decreases src.len(),
        {
            assert(conn_views(src@).len() == src@.len());
            assert(conn_views(src@)[0] == src@[0]@);
            assert(orig.skip(i)[0] == orig[i]);
            let ghost old_src = src@;
            let x = src.remove(0);
            assert(conn_views(src@) =~= conn_views(old_src).drop_first());
            assert(orig.skip(i).drop_first() =~= orig.skip(i + 1));
            assert(x@ == orig[i]);
            assert(orig.take(i + 1).drop_last() =~= orig.take(i));
            assert(orig.take(i + 1).last() == orig[i]);
            proof {
                reveal_with_fuel(Seq::<ConnectionView>::filter, 1);
            }
            if crate::text::text_eq(x.id.as_str(), id) {
                removed = true;
            } else {
                let ghost before = kept@;
                kept.push(x);
                assert(conn_views(kept@) =~= conn_views(before).push(orig[i]));
            }
            assert(conn_views(src@) =~= orig.skip(i + 1));
            proof {
                i = i + 1;
            }
        }
        assert(orig.take(i) =~= orig);
        self.connections = kept;
        removed
    }

    /// The first connection with id `id`, if any.
    pub fn find_by_id(&self, id: &str) -> (r: Option<&Connection>)
        ensures
            match r {
                Some(c) => index_of_id(self@, id@) < self@.len() && c@ == self@[index_of_id(self@, id@) as int],
                None => index_of_id(self@, id@) == self@.len(),
            },
    {
        let i = self.position_of_id(id);
        if i < self.connections.len() {
            Some(&self.connections[i])
        } else {
            None
        }
    }

    /// The position of the first connection with id `id`, or the number of
    /// connections when there is none.
    fn position_of_id(&self, id: &str) -> (r: usize)
        ensures
            r == index_of_id(self@, id@),
            r <= self@.len(),
            r < self@.len() ==> self@[r as int] == self.connections@[r as int]@,
    {
        let mut i: usize = 0;
        while i < self.connections.len() && !crate::text::text_eq(self.connections[i].id.as_str(), id)
            invariant
                i <= self.connections.len(),
                self@.len() == self.connections@.len(),
                forall|k: int| 0 <= k < i ==> (#[trigger] self@[k]).id != id@,
            decreases self.connections.len() - i,
        {
            assert(self@[i as int] == self.connections@[i as int]@);
            i = i + 1;
        }
        proof {
            if i < self.connections.len() {
                assert(self@[i as int] == self.connections@[i as int]@);
            }
            lemma_index_of_id_is(self@, id@, i as int);
        }
        i
    }

    /// The first connection with id `id`, if any, to be changed in place.
    pub fn find_by_id_mut(&mut self, id: &str) -> (r: Option<&mut Connection>)
        ensures
            match r {
                Some(c) => {
                    &&& index_of_id(old(self)@, id@) < old(self)@.len()
                    &&& (*c)@ == old(self)@[index_of_id(old(self)@, id@) as int]
                    &&& final(self)@ == old(self)@.update(index_of_id(old(self)@, id@) as int, (*final(c))@)
                },
                None => index_of_id(old(self)@, id@) == old(self)@.len() && final(self)@ == old(self)@,
            },
    {
        let i = self.position_of_id(id);
        if i < self.connections.len() {
            Some(&mut self.connections[i])
        } else {
            None
        }
    }

    /// The connections that match `query`, in order; all of them for an
    /// empty query.
    pub fn search(&self, query: &str) -> (r: Vec<&Connection>)
        ensures
            ref_views(r@) == search_result(self@, query@),
    {
        let mut r: Vec<&Connection> = Vec::new();
        let empty = query.is_empty();
        let mut i: usize = 0;
        while i < self.connections.len()
            invariant
                i <= self.connections.len(),
                self@.len() == self.connections@.len(),
                empty == (query@.len() == 0),
                ref_views(r@) == if query@.len() == 0 {
                    self@.take(i as int)
                } else {
                    self@.take(i as int).filter(|c: ConnectionView| matches_query_spec(c, query@))
                },
            decreases self.connections.len() - i,
        {
            proof {
                reveal_with_fuel(Seq::<ConnectionView>::filter, 1);
            }
            assert(self@.take(i + 1).drop_last() =~= self@.take(i as int));
            assert(self@[i as int] == self.connections@[i as int]@);
            let c = &self.connections[i];
            let ghost before = r@;
            if empty || c.matches_query(query) {
                r.push(c);
                assert(ref_views(r@) =~= ref_views(before).push(c@));
            }
            i = i + 1;
        }
        assert(self@.take(i as int) =~= self@);
        r
    }

    /// The groups of the connections for the group view: the group names in
    /// increasing order, each once, then one entry for connections without
    /// group if there are any.
    pub fn groups(&self) -> (r: Vec<Option<String>>)
        ensures
            groups_of(self@, group_views(r@)),
    {
        let mut named: Vec<String> = Vec::new();
        let mut has_none = false;
        let mut i: usize = 0;
        while i < self.connections.len()
            invariant
                i <= self.connections.len(),
                self@.len() == self.connections@.len(),
                strictly_increasing(crate::text::views(named@)),
                forall|g: Seq<char>|
                    crate::text::views(named@).contains(g) <==> exists|k: int|
                        0 <= k < i && (#[trigger] self@[k]).group == Some(g),
                has_none == exists|k: int| 0 <= k < i && (#[trigger] self@[k]).group is None,
            decreases self.connections.len() - i,
        {
            assert(self@[i as int] == self.connections@[i as int]@);
            let ghost nv = crate::text::views(named@);
            match &self.connections[i].group {
                None => {
                    has_none = true;
                    assert forall|x: Seq<char>|
                        crate::text::views(named@).contains(x) <==> (nv.contains(x) || self@[i as int].group == Some(x)) by {}
                },
                Some(g) => {
                    let mut j: usize = 0;
                    while j < named.len() && text_before(named[j].as_str(), g.as_str())
                        invariant
                            j <= named.len(),
                            nv == crate::text::views(named@),
                            forall|k: int| 0 <= k < j ==> text_less(#[trigger] nv[k], g@),
                        decreases named.len() - j,
                    {
                        j = j + 1;
                    }
                    if j < named.len() && crate::text::text_eq(named[j].as_str(), g.as_str()) {
                        assert(nv[j as int] == g@);
                        assert(nv.contains(g@));
                        assert forall|x: Seq<char>|
                            crate::text::views(named@).contains(x) <==> (nv.contains(x) || self@[i as int].group == Some(x)) by {}
                    } else {
                        proof {
                            lemma_insert_increasing(nv, g@, j as int);
                        }
                        named.insert(j, g.clone());
                        assert(crate::text::views(named@) =~= nv.insert(j as int, g@));
                        assert forall|x: Seq<char>|
                            crate::text::views(named@).contains(x) <==> (nv.contains(x) || x == g@) by {
                            if nv.contains(x) {
                                let k = choose|k: int| 0 <= k < nv.len() && nv[k] == x;
                                if k < j {
                                    assert(crate::text::views(named@)[k] == x);
                                } else {
                                    assert(crate::text::views(named@)[k + 1] == x);
                                }
                            }
                            if x == g@ {
                                assert(crate::text::views(named@)[j as int] == x);
                            }
                            if crate::text::views(named@).contains(x) {
                                let k = choose|k: int| 0 <= k < crate::text::views(named@).len() && crate::text::views(named@)[k] == x;
                                if k < j {
                                    assert(nv[k] == x);
                                } else if k > j {
                                    assert(nv[k - 1] == x);
                                }
                            }
                        }
                        assert(self@[i as int].group == Some(g@));
                    }
                },
            }
            assert forall|g: Seq<char>|
                crate::text::views(named@).contains(g) <==> exists|k: int|
                    0 <= k < i + 1 && (#[trigger] self@[k]).group == Some(g) by {
                assert(crate::text::views(named@).contains(g) <==> (nv.contains(g) || self@[i as int].group == Some(g)));
                if self@[i as int].group == Some(g) {
                    assert(exists|k: int| 0 <= k < i + 1 && (#[trigger] self@[k]).group == Some(g));
                }
                if exists|k: int| 0 <= k < i + 1 && (#[trigger] self@[k]).group == Some(g) {
                    let k = choose|k: int| 0 <= k < i + 1 && (#[trigger] self@[k]).group == Some(g);
                    if k < i {
                        assert(exists|k: int| 0 <= k < i && (#[trigger] self@[k]).group == Some(g));
                    }
                }
            }
            i = i + 1;
        }
        let mut r: Vec<Option<String>> = Vec::new();
        let mut k: usize = 0;
        while k < named.len()
            invariant
                k <= named.len(),
                group_views(r@) == crate::text::views(named@).take(k as int).map_values(|x: Seq<char>| Some(x)),
            decreases named.len() - k,
        {
            let ghost before = r@;
            let item = named[k].clone();
            assert(item@ == crate::text::views(named@)[k as int]);
            r.push(Some(item));
            assert(group_views(r@) =~= group_views(before).push(Some(crate::text::views(named@)[k as int])));
            assert(crate::text::views(named@).take(k + 1) =~= crate::text::views(named@).take(k as int).push(crate::text::views(named@)[k as int]));
            assert(group_views(r@) =~= crate::text::views(named@).take(k + 1).map_values(|x: Seq<char>| Some(x)));
            k = k + 1;
        }
        let ghost nv = crate::text::views(named@);
        assert(nv.take(named.len() as int) =~= nv);
        let ghost somes = group_views(r@);
        if has_none {
            r.push(None);
            assert(group_views(r@) =~= somes.push(None));
        }
        let ghost gv = group_views(r@);
        assert forall|a: int, b: int| 0 <= a < b < gv.len() implies (#[trigger] gv[a]) is Some && ((#[trigger] gv[b]) is Some ==> text_less(gv[a]->0, gv[b]->0)) by {
            assert(a < nv.len());
            assert(gv[a] == Some(nv[a]));
            if b < nv.len() {
                assert(gv[b] == Some(nv[b]));
            }
        }
        assert forall|x: Option<Seq<char>>| gv.contains(x) <==> exists|k: int| 0 <= k < self@.len() && (#[trigger] self@[k]).group == x by {
            if gv.contains(x) {
                let m = choose|m: int| 0 <= m < gv.len() && gv[m] == x;
                if m < nv.len() {
                    assert(gv[m] == Some(nv[m]));
                    assert(nv.contains(nv[m]));
                }
            }
            if exists|k: int| 0 <= k < self@.len() && (#[trigger] self@[k]).group == x {
                match x {
                    Some(g) => {
                        assert(nv.contains(g));
                        let m = choose|m: int| 0 <= m < nv.len() && nv[m] == g;
                        assert(gv[m] == x);
                    },
                    None => {
                        assert(gv[gv.len() - 1] == x);
                    },
                }
            }
        }
        r
    }
}

} // verus!
