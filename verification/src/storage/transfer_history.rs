//! The recent file transfers of each connection.
use vstd::prelude::*;
use crate::model::ids::Timestamp;
use crate::ssh::transfer::TransferDirection;
use crate::storage::table::{
    find_key_pos, key_pos, keys_increasing, lemma_key_pos, lemma_key_pos_is, lemma_lookup_upsert,
    lemma_upsert_at, lemma_upsert_increasing, lookup, upsert,
    upsert_all,
};
use crate::text::{owned, text_eq, text_less};

verus! {

/// How many transfers are remembered per connection.
pub const MAX_ENTRIES_PER_CONNECTION: usize = 10;

/// A remembered transfer. `direction` is `upload` or `download`.
pub struct TransferEntry {
    pub direction: String,
    pub local_path: String,
    pub remote_path: String,
    pub recursive: bool,
    pub timestamp: Timestamp,
}

/// A transfer as mathematical values.
pub struct TransferEntryView {
    pub direction: Seq<char>,
    pub local_path: Seq<char>,
    pub remote_path: Seq<char>,
    pub recursive: bool,
    pub timestamp: Timestamp,
}

impl View for TransferEntry {
    type V = TransferEntryView;

    open spec fn view(&self) -> TransferEntryView {
        TransferEntryView {
            direction: self.direction@,
            local_path: self.local_path@,
            remote_path: self.remote_path@,
            recursive: self.recursive,
            timestamp: self.timestamp,
        }
    }
}

/// The word stored for a direction.
pub open spec fn direction_text(d: TransferDirection) -> Seq<char> {
    match d {
        TransferDirection::Upload => "upload"@,
        TransferDirection::Download => "download"@,
    }
}

/// The direction of a stored word: `download`, or upload for anything else.
pub open spec fn direction_of(t: Seq<char>) -> TransferDirection {
    if t == "download"@ {
        TransferDirection::Download
    } else {
        TransferDirection::Upload
    }
}

/// A stored direction reads back as the direction it was stored for.
pub proof fn lemma_direction_roundtrip(d: TransferDirection)
    ensures
        direction_of(direction_text(d)) == d,
{
    reveal_strlit("upload");
    reveal_strlit("download");
    assert("upload"@[0] != "download"@[0]);
}

impl TransferEntry {
    /// A transfer made now.
    pub fn new(direction: TransferDirection, local_path: String, remote_path: String, recursive: bool) -> (e: TransferEntry)
        ensures
            e@.direction == direction_text(direction),
            e.local_path == local_path,
            e.remote_path == remote_path,
            e.recursive == recursive,
    {
        TransferEntry {
            direction: match direction {
                TransferDirection::Upload => owned("upload"),
                TransferDirection::Download => owned("download"),
            },
            local_path,
            remote_path,
            recursive,
            timestamp: Timestamp::now(),
        }
    }

    /// The direction of the transfer: download when stored as `download`,
    /// upload otherwise.
    pub fn transfer_direction(&self) -> (d: TransferDirection)
        ensures
            d == direction_of(self.direction@),
    {
        if text_eq(self.direction.as_str(), "download") {
            TransferDirection::Download
        } else {
            TransferDirection::Upload
        }
    }

    /// A copy of the transfer.
    pub fn duplicate(&self) -> (e: TransferEntry)
        ensures
            e@ == self@,
    {
        TransferEntry {
            direction: self.direction.clone(),
            local_path: self.local_path.clone(),
            remote_path: self.remote_path.clone(),
            recursive: self.recursive,
            timestamp: self.timestamp,
        }
    }
}

/// The views of a list of transfers.
pub open spec fn entry_views(v: Seq<TransferEntry>) -> Seq<TransferEntryView> {
    v.map_values(|e: TransferEntry| e@)
}

/// A copy of a list of transfers.
pub fn copy_entries(v: &[TransferEntry]) -> (r: Vec<TransferEntry>)
    ensures
        entry_views(r@) == entry_views(v@),
{
    let mut r: Vec<TransferEntry> = Vec::new();
    let mut j: usize = 0;
    while j < v.len()
        invariant
            j <= v.len(),
            entry_views(r@) == entry_views(v@.take(j as int)),
        decreases v.len() - j,
    {
        let ghost before = r@;
        let d = v[j].duplicate();
        r.push(d);
        assert(v@.take(j + 1) =~= v@.take(j as int).push(v@[j as int]));
        assert(entry_views(r@) =~= entry_views(before).push(v@[j as int]@));
        assert(entry_views(v@.take(j + 1)) =~= entry_views(v@.take(j as int)).push(v@[j as int]@));
        j = j + 1;
    }
    assert(v@.take(j as int) =~= v@);
    r
}

/// The contents of the history file: transfers by connection id.
pub struct HistoryFile {
    pub connections: Vec<(String, Vec<TransferEntry>)>,
}

/// The entries of a history file as mathematical values.
pub open spec fn history_view(v: Seq<(String, Vec<TransferEntry>)>) -> Seq<(Seq<char>, Seq<TransferEntryView>)> {
    v.map_values(|p: (String, Vec<TransferEntry>)| (p.0@, entry_views(p.1@)))
}

/// The transfers remembered for a connection: none when it has none.
pub open spec fn entries_of(h: Seq<(Seq<char>, Seq<TransferEntryView>)>, id: Seq<char>) -> Seq<TransferEntryView> {
    match lookup(h, id) {
        Some(es) => es,
        None => Seq::empty(),
    }
}

/// A list of transfers with one more at the end, dropping the oldest when
/// there would be more than the limit.
pub open spec fn capped_push(es: Seq<TransferEntryView>, e: TransferEntryView) -> Seq<TransferEntryView> {
    if es.len() + 1 > MAX_ENTRIES_PER_CONNECTION {
        es.push(e).drop_first()
    } else {
        es.push(e)
    }
}

/// The history of recent transfers.
pub struct TransferHistory {
    connections: Vec<(String, Vec<TransferEntry>)>,
}

impl View for TransferHistory {
    type V = Seq<(Seq<char>, Seq<TransferEntryView>)>;

    closed spec fn view(&self) -> Seq<(Seq<char>, Seq<TransferEntryView>)> {
        history_view(self.connections@)
    }
}

impl TransferHistory {
    #[verifier::type_invariant]
    spec fn wf(self) -> bool {
        keys_increasing(history_view(self.connections@))
    }

    /// Sets the transfers of `id` in a list whose keys increase.
    fn put(v: &mut Vec<(String, Vec<TransferEntry>)>, id: String, es: Vec<TransferEntry>)
        requires
            keys_increasing(history_view(old(v)@)),
        ensures
            history_view(final(v)@) == upsert(history_view(old(v)@), id@, entry_views(es@)),
            keys_increasing(history_view(final(v)@)),
    {
        let ghost e = history_view(v@);
        proof {
            lemma_upsert_at(e, id@, entry_views(es@));
            lemma_upsert_increasing(e, id@, entry_views(es@));
        }
        let p = find_key_pos(v, id.as_str());
        proof {
            assert forall|m: int| 0 <= m < p implies text_less(#[trigger] e[m].0, id@) by {
                assert(e[m].0 == v@[m].0@);
            }
            if p < v.len() {
                assert(e[p as int].0 == v@[p as int].0@);
            }
            lemma_key_pos_is(e, id@, p as int);
        }
        let ghost new_item = (id@, entry_views(es@));
        if p < v.len() && text_eq(v[p].0.as_str(), id.as_str()) {
            v.set(p, (id, es));
            assert(history_view(v@) =~= e.update(p as int, new_item));
        } else {
            v.insert(p, (id, es));
            assert(history_view(v@) =~= e.insert(p as int, new_item));
        }
    }

    /// The history held in a file; a later list for the same id replaces an
    /// earlier one.
    pub fn new(data: HistoryFile) -> (h: TransferHistory)
        ensures
            h@ == upsert_all(history_view(data.connections@)),
    {
        let ghost orig = history_view(data.connections@);
        let mut src = data.connections;
        let mut out: Vec<(String, Vec<TransferEntry>)> = Vec::new();
        let ghost mut i: int = 0;
        assert(orig.skip(0) =~= orig);
        assert(orig.take(0) =~= Seq::<(Seq<char>, Seq<TransferEntryView>)>::empty());
        while src.len() > 0
            invariant
                0 <= i <= orig.len(),
                history_view(src@) == orig.skip(i),
                history_view(out@) == upsert_all(orig.take(i)),
                keys_increasing(history_view(out@)),
            decreases src.len(),
        {
            assert(history_view(src@).len() == src@.len());
            assert(history_view(src@)[0] == orig.skip(i)[0]);
            let ghost old_src = src@;
            let (id, es) = src.remove(0);
            assert(history_view(src@) =~= history_view(old_src).drop_first());
            assert(orig.skip(i).drop_first() =~= orig.skip(i + 1));
            assert(orig.take(i + 1).drop_last() =~= orig.take(i));
            assert(orig.take(i + 1).last() == orig[i]);
            Self::put(&mut out, id, es);
            proof {
                i = i + 1;
            }
        }
        assert(orig.take(i) =~= orig);
        TransferHistory { connections: out }
    }

    /// The file contents for the history.
    pub fn to_file(&self) -> (f: HistoryFile)
        ensures
            history_view(f.connections@) == self@,
    {
        let mut out: Vec<(String, Vec<TransferEntry>)> = Vec::new();
        let mut i: usize = 0;
        while i < self.connections.len()
            invariant
                i <= self.connections.len(),
                history_view(out@) == history_view(self.connections@.take(i as int)),
            decreases self.connections.len() - i,
        {
            let es = copy_entries(self.connections[i].1.as_slice());
            let ghost before = out@;
            let key = self.connections[i].0.clone();
            let ghost item = self.connections@[i as int];
            out.push((key, es));
            assert(self.connections@.take(i + 1) =~= self.connections@.take(i as int).push(item));
            assert(history_view(out@) =~= history_view(before).push((item.0@, entry_views(item.1@))));
            assert(history_view(self.connections@.take(i + 1)) =~= history_view(self.connections@.take(i as int)).push((item.0@, entry_views(item.1@))));
            i = i + 1;
        }
        assert(self.connections@.take(i as int) =~= self.connections@);
        HistoryFile { connections: out }
    }

    /// The transfers remembered for connection `connection_id`, oldest first.
    pub fn entries_for(&self, connection_id: &str) -> (r: &[TransferEntry])
        ensures
            entry_views(r@) == entries_of(self@, connection_id@),
    {
        proof {
            use_type_invariant(self);
        }
        let ghost e = history_view(self.connections@);
        let p = find_key_pos(&self.connections, connection_id);
        proof {
            assert forall|m: int| 0 <= m < p implies text_less(#[trigger] e[m].0, connection_id@) by {
                assert(e[m].0 == self.connections@[m].0@);
            }
            if p < self.connections.len() {
                assert(e[p as int].0 == self.connections@[p as int].0@);
            }
            lemma_key_pos_is(e, connection_id@, p as int);
            lemma_lookup_in_order(e, connection_id@);
        }
        if p < self.connections.len() && text_eq(self.connections[p].0.as_str(), connection_id) {
            self.connections[p].1.as_slice()
        } else {
            let empty: &[TransferEntry] = &[];
            assert(entry_views(empty@) =~= Seq::<TransferEntryView>::empty());
            empty
        }
    }

    /// Remembers a transfer of connection `connection_id`; when it then has
    /// more than the limit, its oldest transfer is forgotten.
    pub fn push(&mut self, connection_id: &str, entry: TransferEntry)
        ensures
            final(self)@ == upsert(old(self)@, connection_id@, capped_push(entries_of(old(self)@, connection_id@), entry@)),
    {
        proof {
            use_type_invariant(&*self);
        }
        let ghost start = self@;
        let mut v: Vec<(String, Vec<TransferEntry>)> = Vec::new();
        std::mem::swap(&mut v, &mut self.connections);
        let h = TransferHistory { connections: v };
        let mut es = copy_entries(h.entries_for(connection_id));
        let current = h;
        let ghost olds = entry_views(es@);
        es.push(entry);
        if es.len() > MAX_ENTRIES_PER_CONNECTION {
            es.remove(0);
        }
        assert(entry_views(es@) =~= capped_push(olds, entry@));
        let mut v = current.connections;
        Self::put(&mut v, owned(connection_id), es);
        self.connections = v;
    }
}

/// After remembering a transfer of a connection: its list ends with that
/// transfer, holds at most the limit when it did before, and the lists of
/// other connections are unchanged.
pub proof fn lemma_push_effect(
    h: Seq<(Seq<char>, Seq<TransferEntryView>)>,
    id: Seq<char>,
    e: TransferEntryView,
    other: Seq<char>,
)
    ensures
        ({
            let h2 = upsert(h, id, capped_push(entries_of(h, id), e));
            &&& entries_of(h2, id) == capped_push(entries_of(h, id), e)
            &&& entries_of(h2, id).last() == e
            &&& entries_of(h2, id).len() >= 1
            &&& (entries_of(h, id).len() <= MAX_ENTRIES_PER_CONNECTION ==> entries_of(h2, id).len() <= MAX_ENTRIES_PER_CONNECTION)
            &&& (other != id ==> entries_of(h2, other) == entries_of(h, other))
        }),
{
    let v = capped_push(entries_of(h, id), e);
    lemma_lookup_upsert(h, id, v, other);
    let es = entries_of(h, id);
    if es.len() + 1 > MAX_ENTRIES_PER_CONNECTION {
        assert(es.push(e).drop_first().last() == e);
    }
}

/// In a list with increasing keys, the value of a key is at its key position.
pub proof fn lemma_lookup_in_order<V>(e: Seq<(Seq<char>, V)>, k: Seq<char>)
    requires
        keys_increasing(e),
    ensures
        key_pos(e, k) < e.len() && e[key_pos(e, k) as int].0 == k ==> lookup(e, k) == Some(e[key_pos(e, k) as int].1),
        !(key_pos(e, k) < e.len() && e[key_pos(e, k) as int].0 == k) ==> lookup(e, k) is None,
    decreases e.len(),
{
    lemma_key_pos(e, k);
    if e.len() > 0 {
        if e[0].0 == k {
            crate::text::lemma_text_less_irreflexive(k);
        } else if text_less(e[0].0, k) {
            let r = e.drop_first();
            assert(keys_increasing(r)) by {
                assert forall|i: int, j: int| 0 <= i < j < r.len() implies text_less(#[trigger] r[i].0, #[trigger] r[j].0) by {
                    assert(r[i] == e[i + 1] && r[j] == e[j + 1]);
                }
            }
            lemma_lookup_in_order(r, k);
        } else {
            // k is smaller than the first key, hence than all keys.
            crate::text::lemma_text_less_total(e[0].0, k);
            assert forall|m: int| 0 <= m < e.len() implies e[m].0 != k by {
                if m > 0 {
                    crate::text::lemma_text_less_asymmetric(k, e[0].0);
                    crate::text::lemma_text_less_transitive(k, e[0].0, e[m].0);
                    crate::text::lemma_text_less_irreflexive(k);
                }
            }
            lemma_lookup_absent(e, k);
        }
    }
}

/// A key held by no entry has no value.
proof fn lemma_lookup_absent<V>(e: Seq<(Seq<char>, V)>, k: Seq<char>)
    requires
        forall|m: int| 0 <= m < e.len() ==> e[m].0 != k,
    ensures
        lookup(e, k) is None,
    decreases e.len(),
{
    if e.len() > 0 {
        assert forall|m: int| 0 <= m < e.drop_first().len() implies e.drop_first()[m].0 != k by {
            assert(e.drop_first()[m] == e[m + 1]);
        }
        lemma_lookup_absent(e.drop_first(), k);
    }
}

} // verus!
