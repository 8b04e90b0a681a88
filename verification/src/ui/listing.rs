//! Directory listings as the file trees show them: hidden names left out
//! unless asked for, directories first, then by name ignoring case.
use vstd::prelude::*;
use crate::text::{lemma_text_less_asymmetric, lemma_text_less_total, lemma_text_less_transitive, lowercase, text_before, text_less, text_starts_with, to_lower};

verus! {

broadcast use vstd::seq_lib::group_to_multiset_ensures;

/// An entry of a directory.
pub struct DirEntry {
    pub path: String,
    pub name: String,
    pub is_dir: bool,
}

/// A directory entry as mathematical values.
pub struct DirEntryView {
    pub path: Seq<char>,
    pub name: Seq<char>,
    pub is_dir: bool,
}

impl View for DirEntry {
    type V = DirEntryView;

    open spec fn view(&self) -> DirEntryView {
        DirEntryView { path: self.path@, name: self.name@, is_dir: self.is_dir }
    }
}

/// The views of a list of entries.
pub open spec fn dir_views(v: Seq<DirEntry>) -> Seq<DirEntryView> {
    v.map_values(|e: DirEntry| e@)
}

/// Whether `a` is listed before `b`: directories before files, then by
/// lowercase name.
pub open spec fn entry_before(a: DirEntryView, b: DirEntryView) -> bool {
    (a.is_dir && !b.is_dir) || (a.is_dir == b.is_dir && text_less(lowercase(a.name), lowercase(b.name)))
}

/// Whether a name is hidden (starts with a dot).
pub open spec fn is_hidden(name: Seq<char>) -> bool {
    name.len() > 0 && name[0] == '.'
}

/// Where `x` goes in a listing: before the first entry it comes before.
pub open spec fn entry_pos(t: Seq<DirEntryView>, x: DirEntryView) -> nat
    decreases t.len(),
{
    if t.len() == 0 {
        0
    } else if entry_before(x, t[0]) {
        0
    } else {
        1 + entry_pos(t.drop_first(), x)
    }
}

/// `s` in listing order, entries that compare equal keeping their order.
pub open spec fn sort_entries(s: Seq<DirEntryView>) -> Seq<DirEntryView>
    decreases s.len(),
{
    if s.len() == 0 {
        s
    } else {
        let t = sort_entries(s.drop_last());
        t.insert(entry_pos(t, s.last()) as int, s.last())
    }
}

/// Whether a listing is in listing order.
pub open spec fn listing_sorted(t: Seq<DirEntryView>) -> bool {
    forall|i: int, j: int| 0 <= i < j < t.len() ==> !entry_before(#[trigger] t[j], #[trigger] t[i])
}

/// The listing shown for a directory: hidden entries dropped unless
/// `show_hidden`, the rest in listing order.
pub open spec fn shown_listing(s: Seq<DirEntryView>, show_hidden: bool) -> Seq<DirEntryView> {
    sort_entries(s.filter(|e: DirEntryView| show_hidden || !is_hidden(e.name)))
}

/// The listing order is asymmetric.
proof fn lemma_before_asymmetric(a: DirEntryView, b: DirEntryView)
    requires
        entry_before(a, b),
    ensures
        !entry_before(b, a),
{
    if a.is_dir == b.is_dir {
        lemma_text_less_asymmetric(lowercase(a.name), lowercase(b.name));
    }
}

/// If `x` comes before `y` and `z` not before `y`, then `x` comes before `z`.
proof fn lemma_before_chain(x: DirEntryView, y: DirEntryView, z: DirEntryView)
    requires
        entry_before(x, y),
        !entry_before(z, y),
    ensures
        entry_before(x, z),
{
    if x.is_dir == y.is_dir && z.is_dir == y.is_dir {
        lemma_text_less_total(lowercase(z.name), lowercase(y.name));
        if lowercase(z.name) != lowercase(y.name) {
            lemma_text_less_transitive(lowercase(x.name), lowercase(y.name), lowercase(z.name));
        }
    }
}

/// The insert position lies after entries `x` does not come before and at
/// an entry it comes before.
pub proof fn lemma_entry_pos(t: Seq<DirEntryView>, x: DirEntryView)
    ensures
        entry_pos(t, x) <= t.len(),
        forall|k: int| 0 <= k < entry_pos(t, x) ==> !entry_before(x, #[trigger] t[k]),
        entry_pos(t, x) < t.len() ==> entry_before(x, t[entry_pos(t, x) as int]),
    decreases t.len(),
{
    if t.len() > 0 && !entry_before(x, t[0]) {
        lemma_entry_pos(t.drop_first(), x);
        assert forall|k: int| 0 <= k < entry_pos(t, x) implies !entry_before(x, #[trigger] t[k]) by {
            if k > 0 {
                assert(t[k] == t.drop_first()[k - 1]);
            }
        }
    }
}

proof fn lemma_entry_pos_is(t: Seq<DirEntryView>, x: DirEntryView, j: int)
    requires
        0 <= j <= t.len(),
        forall|k: int| 0 <= k < j ==> !entry_before(x, #[trigger] t[k]),
        j < t.len() ==> entry_before(x, t[j]),
    ensures
        entry_pos(t, x) == j,
    decreases t.len(),
{
    if j > 0 {
        assert(!entry_before(x, t[0]));
        assert forall|k: int| 0 <= k < j - 1 implies !entry_before(x, #[trigger] t.drop_first()[k]) by {
            assert(t.drop_first()[k] == t[k + 1]);
        }
        lemma_entry_pos_is(t.drop_first(), x, j - 1);
    }
}

proof fn lemma_insert_entry_sorted(t: Seq<DirEntryView>, x: DirEntryView)
    requires
        listing_sorted(t),
    ensures
        listing_sorted(t.insert(entry_pos(t, x) as int, x)),
{
    lemma_entry_pos(t, x);
    let p = entry_pos(t, x) as int;
    let u = t.insert(p, x);
    assert forall|m: int| p <= m < t.len() implies entry_before(x, #[trigger] t[m]) by {
        if m > p {
            lemma_before_chain(x, t[p], t[m]);
        }
    }
    assert forall|i: int, j: int| 0 <= i < j < u.len() implies !entry_before(#[trigger] u[j], #[trigger] u[i]) by {
        if i == p {
            assert(u[j] == t[j - 1]);
            lemma_before_asymmetric(x, t[j - 1]);
        } else if j == p {
        } else {
            let ti = if i < p { t[i] } else { t[i - 1] };
            let tj = if j < p { t[j] } else { t[j - 1] };
            assert(ti == u[i] && tj == u[j]);
        }
    }
}

/// A listing in listing order is sorted and holds the same entries.
pub proof fn lemma_sort_entries(s: Seq<DirEntryView>)
    ensures
        listing_sorted(sort_entries(s)),
        sort_entries(s).to_multiset() == s.to_multiset(),
        sort_entries(s).len() == s.len(),
    decreases s.len(),
{
    if s.len() > 0 {
        lemma_sort_entries(s.drop_last());
        let t = sort_entries(s.drop_last());
        lemma_entry_pos(t, s.last());
        lemma_insert_entry_sorted(t, s.last());
        assert(s =~= s.drop_last().push(s.last()));
    }
}

/// Whether entry `a` comes before entry `b`, given their lowercase names.
fn before_exec(a: &DirEntry, la: &String, b: &DirEntry, lb: &String) -> (r: bool)
    requires
        la@ == lowercase(a.name@),
        lb@ == lowercase(b.name@),
    ensures
        r == entry_before(a@, b@),
{
    (a.is_dir && !b.is_dir) || (a.is_dir == b.is_dir && text_before(la.as_str(), lb.as_str()))
}

/// The listing shown for a directory: hidden entries (names starting with
/// a dot) dropped unless `show_hidden`, directories first, then by name
/// ignoring case; entries that compare equal keep their order.
pub fn sort_listing(entries: Vec<DirEntry>, show_hidden: bool) -> (r: Vec<DirEntry>)
    ensures
        dir_views(r@) == shown_listing(dir_views(entries@), show_hidden),
{
    let ghost orig = dir_views(entries@);
    let ghost pred = |e: DirEntryView| show_hidden || !is_hidden(e.name);
    let mut src = entries;
    let mut out: Vec<DirEntry> = Vec::new();
    let mut keys: Vec<String> = Vec::new();
    let ghost mut i: int = 0;
    assert(orig.skip(0) =~= orig);
    assert(orig.take(0) =~= Seq::<DirEntryView>::empty());
    proof {
        reveal_with_fuel(Seq::<DirEntryView>::filter, 1);
    }
    while src.len() > 0
        invariant
            0 <= i <= orig.len(),
            pred == (|e: DirEntryView| show_hidden || !is_hidden(e.name)),
            dir_views(src@) == orig.skip(i),
            dir_views(out@) == sort_entries(orig.take(i).filter(pred)),
            keys@.len() == out@.len(),
            forall|k: int| 0 <= k < out@.len() ==> (#[trigger] keys@[k])@ == lowercase(out@[k].name@),
        decreases src.len(),
    {
        assert(dir_views(src@).len() == src@.len());
        assert(dir_views(src@)[0] == src@[0]@);
        assert(orig.skip(i)[0] == orig[i]);
        let ghost old_src = src@;
        let x = src.remove(0);
        assert(dir_views(src@) =~= dir_views(old_src).drop_first());
        assert(orig.skip(i).drop_first() =~= orig.skip(i + 1));
        assert(orig.take(i + 1).drop_last() =~= orig.take(i));
        assert(orig.take(i + 1).last() == orig[i]);
        proof {
            reveal_with_fuel(Seq::<DirEntryView>::filter, 1);
        }
        let hidden = text_starts_with(x.name.as_str(), ".");
        proof {
            reveal_strlit(".");
            if hidden {
                assert(x.name@[0] == ".".view()[0]);
            } else if x.name@.len() > 0 && x.name@[0] == '.' {
                assert(x.name@.take(1) =~= ".".view());
            }
        }
        if show_hidden || !hidden {
            let kx = to_lower(x.name.as_str());
            let ghost t = dir_views(out@);
            let mut j: usize = 0;
            while j < out.len() && !before_exec(&x, &kx, &out[j], &keys[j])
                invariant
                    j <= out.len(),
                    keys@.len() == out@.len(),
                    t == dir_views(out@),
                    kx@ == lowercase(x.name@),
                    forall|k: int| 0 <= k < out@.len() ==> (#[trigger] keys@[k])@ == lowercase(out@[k].name@),
                    forall|k: int| 0 <= k < j ==> !entry_before(x@, #[trigger] t[k]),
                decreases out.len() - j,
            {
                assert(t[j as int] == out@[j as int]@);
                j = j + 1;
            }
            proof {
                if j < out.len() {
                    assert(t[j as int] == out@[j as int]@);
                }
                lemma_entry_pos_is(t, x@, j as int);
            }
            let ghost old_keys = keys@;
            let ghost old_out = out@;
            out.insert(j, x);
            keys.insert(j, kx);
            assert(dir_views(out@) =~= t.insert(j as int, orig[i]));
            assert forall|k: int| 0 <= k < out@.len() implies (#[trigger] keys@[k])@ == lowercase(out@[k].name@) by {
                if k < j {
                    assert(keys@[k] == old_keys[k] && out@[k] == old_out[k]);
                } else if k > j {
                    assert(keys@[k] == old_keys[k - 1] && out@[k] == old_out[k - 1]);
                }
            }
            assert(orig.take(i + 1).filter(pred) == orig.take(i).filter(pred).push(orig[i]));
            let ghost f = orig.take(i).filter(pred);
            assert(f.push(orig[i]).drop_last() =~= f);
            assert(sort_entries(f.push(orig[i])) == sort_entries(f).insert(entry_pos(sort_entries(f), orig[i]) as int, orig[i]));
        } else {
            assert(!pred(orig[i]));
            assert(orig.take(i + 1).filter(pred) == orig.take(i).filter(pred));
        }
        proof {
            i = i + 1;
        }
    }
    assert(orig.take(i) =~= orig);
    out
}

} // verus!
