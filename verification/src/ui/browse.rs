//! The connection list: a search, a flat or grouped view, and the chosen
//! line.
use vstd::prelude::*;
use crate::model::connection::{Connection, ConnectionView};
use crate::model::store::{group_views, groups_of, ref_views, search_result, ConnectionStore};
use crate::text::{opt_view, owned, views};
use crate::ui::app::BrowseAction;
use crate::ui::input::{input_edit, Key, KeyCode, TextField};

verus! {

/// A line of the list: a group heading, or a connection by its position
/// among the search results.
pub enum BrowseRow {
    Group(Option<String>),
    Entry(usize),
}

/// The connection list.
pub struct BrowseState {
    /// The chosen line.
    pub selected: Option<usize>,
    pub search: TextField,
    pub search_active: bool,
    pub grouped: bool,
    /// The id of the connection on each line as last shown; empty for
    /// group headings.
    pub filtered_ids: Vec<String>,
}

/// The query the list shows: the search text while searching, else none.
pub open spec fn shown_query(b: BrowseState) -> Seq<char> {
    if b.search_active { b.search.value@ } else { Seq::empty() }
}

/// A line of the list as mathematical values.
pub enum RowView {
    Heading(Option<Seq<char>>),
    Item(int),
}

/// A line as mathematical values.
pub open spec fn row_view(r: BrowseRow) -> RowView {
    match r {
        BrowseRow::Group(g) => RowView::Heading(opt_view(g)),
        BrowseRow::Entry(i) => RowView::Item(i as int),
    }
}

/// The lines as mathematical values.
pub open spec fn row_views(v: Seq<BrowseRow>) -> Seq<RowView> {
    v.map_values(|r: BrowseRow| row_view(r))
}

/// The lines for the results `rs` in group `g`, in order.
pub open spec fn group_rows(rs: Seq<ConnectionView>, g: Option<Seq<char>>) -> Seq<RowView>
    decreases rs.len(),
{
    if rs.len() == 0 {
        Seq::empty()
    } else {
        let rest = group_rows(rs.drop_last(), g);
        if rs.last().group == g { rest.push(RowView::Item(rs.len() - 1)) } else { rest }
    }
}

/// The lines of the grouped view: for each group, its heading and then the
/// lines of its results.
pub open spec fn grouped_rows(rs: Seq<ConnectionView>, gs: Seq<Option<Seq<char>>>) -> Seq<RowView>
    decreases gs.len(),
{
    if gs.len() == 0 {
        Seq::empty()
    } else {
        grouped_rows(rs, gs.drop_last()) + seq![RowView::Heading(gs.last())] + group_rows(rs, gs.last())
    }
}

/// The lines of the flat view: every result, in order.
pub open spec fn flat_rows(n: nat) -> Seq<RowView> {
    Seq::new(n, |i: int| RowView::Item(i))
}

/// The id a line records: empty for a heading.
pub open spec fn row_id(r: RowView, rs: Seq<ConnectionView>) -> Seq<char> {
    match r {
        RowView::Heading(_) => Seq::empty(),
        RowView::Item(i) => rs[i].id,
    }
}

/// Whether `rows` are the lines the list shows for a store: the search
/// results, flat or under the store's group headings.
pub open spec fn shown_rows(b: BrowseState, store: Seq<ConnectionView>, rows: Seq<RowView>) -> bool {
    let rs = search_result(store, shown_query(b));
    if b.grouped {
        exists|gs: Seq<Option<Seq<char>>>| groups_of(store, gs) && rows == grouped_rows(rs, gs)
    } else {
        rows == flat_rows(rs.len())
    }
}

/// The ids recorded for lines `rows` over results `rs`.
pub open spec fn row_ids(rows: Seq<RowView>, rs: Seq<ConnectionView>) -> Seq<Seq<char>> {
    rows.map_values(|r: RowView| row_id(r, rs))
}

/// `v` clamped to `0..=max`.
pub open spec fn clamp_to(v: int, max: int) -> int {
    if v < 0 { 0 } else if v > max { max } else { v }
}

/// The chosen line after moving by `delta` over line ids `ids`: clamped to
/// the list, and in the grouped view stepping once more over a heading
/// when that lands on a connection.
pub open spec fn moved_line(selected: Option<usize>, delta: int, ids: Seq<Seq<char>>, grouped: bool) -> usize {
    let max = if ids.len() == 0 { 0 } else { ids.len() - 1 };
    let cur = match selected { Some(i) => i as int, None => 0 };
    let next = clamp_to(cur + delta, max);
    if grouped && next < ids.len() && ids[next].len() == 0 {
        let again = clamp_to(next + delta, max);
        if again < ids.len() && ids[again].len() > 0 { again as usize } else { next as usize }
    } else {
        next as usize
    }
}

/// The id on the chosen line, if there is one.
pub open spec fn selected_id_spec(b: BrowseState) -> Option<Seq<char>> {
    match b.selected {
        Some(i) => if i < b.filtered_ids@.len() { Some(b.filtered_ids@[i as int]@) } else { None },
        None => None,
    }
}

/// What a key press does to the list `b`, giving `b2` and `a`.
pub open spec fn browse_key_spec(b: BrowseState, key: Key, b2: BrowseState, a: BrowseAction) -> bool {
    let ids = views(b.filtered_ids@);
    &&& b2.filtered_ids@ == b.filtered_ids@
    &&& if b.search_active {
        &&& a is Nothing && b2.grouped == b.grouped
        &&& match key.code {
            KeyCode::Esc => !b2.search_active && b2.search.value@.len() == 0 && b2.search.cursor == 0
                && b2.selected == Some(0usize),
            KeyCode::Enter => !b2.search_active && b2.search == b.search && b2.selected == b.selected,
            _ => b2.search_active && b2.selected == Some(0usize)
                && (b2.search.value@, b2.search.cursor) == input_edit(b.search.value@, b.search.cursor, key),
        }
    } else {
        &&& (key.code != KeyCode::Char('/') ==> b2.search == b.search && !b2.search_active)
        &&& (key.code != KeyCode::Tab ==> b2.grouped == b.grouped)
        &&& match key.code {
            KeyCode::Char('q') => a is Quit && b2.selected == b.selected,
            KeyCode::Char('j') | KeyCode::Down => a is Nothing && b2.selected == Some(moved_line(b.selected, 1, ids, b.grouped)),
            KeyCode::Char('k') | KeyCode::Up => a is Nothing && b2.selected == Some(moved_line(b.selected, -1, ids, b.grouped)),
            KeyCode::Char('g') => a is Nothing && b2.selected == Some(0usize),
            KeyCode::Char('G') => a is Nothing && b2.selected == (if ids.len() > 0 { Some((ids.len() - 1) as usize) } else { b.selected }),
            KeyCode::Char('/') => a is Nothing && b2.search_active && b2.search.value@.len() == 0 && b2.search.cursor == 0
                && b2.selected == b.selected && b2.grouped == b.grouped,
            KeyCode::Tab => a is Nothing && b2.grouped == !b.grouped && b2.selected == Some(0usize),
            KeyCode::Char('a') => a is AddNew && b2.selected == b.selected,
            KeyCode::Char('i') => a is Import && b2.selected == b.selected,
            KeyCode::Enter => b2.selected == b.selected && match selected_id_spec(b) {
                Some(id) => if id.len() > 0 {
                    a matches BrowseAction::ViewDetail(x) && x@ == id
                } else {
                    a is Nothing
                },
                None => a is Nothing,
            },
            _ => a is Nothing && b2.selected == b.selected,
        }
    }
}

/// Appends the lines of the results in group `g`, and their ids.
fn push_group(rs: &Vec<&Connection>, g: &Option<String>, ids: &mut Vec<String>, rows: &mut Vec<BrowseRow>)
    requires
        views(old(ids)@) == row_ids(row_views(old(rows)@), ref_views(rs@)),
    ensures
        row_views(final(rows)@) == row_views(old(rows)@) + group_rows(ref_views(rs@), opt_view(*g)),
        views(final(ids)@) == row_ids(row_views(final(rows)@), ref_views(rs@)),
{
    let ghost start = row_views(rows@);
    let ghost rv = ref_views(rs@);
    let mut i: usize = 0;
    while i < rs.len()
        invariant
            i <= rs.len(),
            rv == ref_views(rs@),
            row_views(rows@) == start + group_rows(rv.take(i as int), opt_view(*g)),
            views(ids@) == row_ids(row_views(rows@), rv),
        decreases rs.len() - i,
    {
        assert(rv.take(i + 1).drop_last() =~= rv.take(i as int));
        assert(rv.take(i + 1).last() == rs@[i as int]@);
        let same = match (&rs[i].group, g) {
            (Some(a), Some(b)) => crate::text::text_eq(a.as_str(), b.as_str()),
            (None, None) => true,
            _ => false,
        };
        assert(same == (opt_view(rs@[i as int].group) == opt_view(*g)));
        if same {
            let ghost prev_ids = views(ids@);
            let ghost prev_rows = row_views(rows@);
            ids.push(owned(rs[i].id.as_str()));
            rows.push(BrowseRow::Entry(i));
            assert(row_views(rows@) =~= prev_rows.push(RowView::Item(i as int)));
            assert(rv[i as int] == rs@[i as int]@);
            assert(views(ids@) =~= prev_ids.push(rv[i as int].id));
            assert(row_ids(row_views(rows@), rv) =~= row_ids(prev_rows, rv).push(rv[i as int].id));
        }
        i = i + 1;
    }
    assert(rv.take(rs.len() as int) =~= rv);
}

impl BrowseState {
    /// The list before anything is shown: flat, no search, first line chosen.
    pub fn new() -> (b: BrowseState)
        ensures
            b.selected == Some(0usize),
            b.search.value@.len() == 0,
            !b.search_active,
            !b.grouped,
            b.filtered_ids@.len() == 0,
    {
        BrowseState { selected: Some(0), search: TextField::empty(), search_active: false, grouped: false, filtered_ids: Vec::new() }
    }

    /// The query the list shows.
    pub fn query(&self) -> (r: &str)
        ensures
            r@ == shown_query(*self),
    {
        proof {
            reveal_strlit("");
        }
        if self.search_active {
            self.search.value()
        } else {
            ""
        }
    }

    /// Works out the lines shown for a store: the search results, flat or
    /// under their group headings; records the id of each line and returns
    /// the lines (a connection line by its position among the results).
    pub fn refresh(&mut self, store: &ConnectionStore) -> (rows: Vec<BrowseRow>)
        ensures
            shown_rows(*final(self), store@, row_views(rows@)),
            views(final(self).filtered_ids@) == row_ids(row_views(rows@), search_result(store@, shown_query(*final(self)))),
            final(self).selected == old(self).selected,
            final(self).search == old(self).search,
            final(self).search_active == old(self).search_active,
            final(self).grouped == old(self).grouped,
    {
        proof {
            reveal_strlit("");
        }
        let results = store.search(self.query());
        let ghost rv = ref_views(results@);
        let mut ids: Vec<String> = Vec::new();
        let mut rows: Vec<BrowseRow> = Vec::new();
        assert(row_ids(row_views(rows@), rv) =~= views(ids@));
        if self.grouped {
            let groups = store.groups();
            let ghost gs = group_views(groups@);
            let mut k: usize = 0;
            while k < groups.len()
                invariant
                    k <= groups.len(),
                    gs == group_views(groups@),
                    rv == ref_views(results@),
                    row_views(rows@) == grouped_rows(rv, gs.take(k as int)),
                    views(ids@) == row_ids(row_views(rows@), rv),
                decreases groups.len() - k,
            {
                assert(gs.take(k + 1).drop_last() =~= gs.take(k as int));
                assert(gs.take(k + 1).last() == opt_view(groups@[k as int]));
                let ghost prev_ids = views(ids@);
                let ghost prev_rows = row_views(rows@);
                ids.push(String::new());
                rows.push(BrowseRow::Group(crate::text::copy_opt(&groups[k])));
                assert(row_views(rows@) =~= prev_rows.push(RowView::Heading(opt_view(groups@[k as int]))));
                assert(views(ids@) =~= prev_ids.push(Seq::<char>::empty()));
                assert(row_ids(row_views(rows@), rv) =~= row_ids(prev_rows, rv).push(Seq::<char>::empty()));
                push_group(&results, &groups[k], &mut ids, &mut rows);
                assert(row_views(rows@) =~= grouped_rows(rv, gs.take(k + 1)));
                k = k + 1;
            }
            assert(gs.take(groups.len() as int) =~= gs);
        } else {
            let mut i: usize = 0;
            while i < results.len()
                invariant
                    i <= results.len(),
                    rv == ref_views(results@),
                    row_views(rows@) == flat_rows(i as nat),
                    views(ids@) == row_ids(row_views(rows@), rv),
                decreases results.len() - i,
            {
                let ghost prev_ids = views(ids@);
                let ghost prev_rows = row_views(rows@);
                ids.push(owned(results[i].id.as_str()));
                rows.push(BrowseRow::Entry(i));
                assert(rv[i as int] == results@[i as int]@);
                assert(row_views(rows@) =~= prev_rows.push(RowView::Item(i as int)));
                assert(flat_rows((i + 1) as nat) =~= flat_rows(i as nat).push(RowView::Item(i as int)));
                assert(views(ids@) =~= prev_ids.push(rv[i as int].id));
                assert(row_ids(row_views(rows@), rv) =~= row_ids(prev_rows, rv).push(rv[i as int].id));
                i = i + 1;
            }
        }
        self.filtered_ids = ids;
        rows
    }

    /// The chosen line after moving by one line down (`down`) or up.
    fn move_selection(&mut self, down: bool)
        ensures
            final(self).selected == Some(moved_line(old(self).selected, if down { 1 } else { -1 }, views(old(self).filtered_ids@), old(self).grouped)),
            final(self).filtered_ids == old(self).filtered_ids,
            final(self).search == old(self).search,
            final(self).search_active == old(self).search_active,
            final(self).grouped == old(self).grouped,
    {
        let ghost ids = views(self.filtered_ids@);
        let len = self.filtered_ids.len();
        let max = if len == 0 { 0 } else { len - 1 };
        let cur = match self.selected {
            Some(i) => i,
            None => 0,
        };
        let next = if down {
            if cur >= max { max } else { cur + 1 }
        } else {
            if cur == 0 { 0 } else if cur - 1 > max { max } else { cur - 1 }
        };
        let mut chosen = next;
        if self.grouped && next < len {
            assert(ids[next as int] == self.filtered_ids@[next as int]@);
            if self.filtered_ids[next].as_str().is_empty() {
                let again = if down {
                    if next >= max { max } else { next + 1 }
                } else {
                    if next == 0 { 0 } else if next - 1 > max { max } else { next - 1 }
                };
                if again < len {
                    assert(ids[again as int] == self.filtered_ids@[again as int]@);
                    if !self.filtered_ids[again].as_str().is_empty() {
                        chosen = again;
                    }
                }
            }
        }
        self.selected = Some(chosen);
    }

    /// The id on the chosen line, if there is one.
    pub fn selected_id(&self) -> (r: Option<String>)
        ensures
            opt_view(r) == selected_id_spec(*self),
    {
        match self.selected {
            Some(i) => {
                if i < self.filtered_ids.len() {
                    Some(owned(self.filtered_ids[i].as_str()))
                } else {
                    None
                }
            },
            None => None,
        }
    }

    /// A key press: while searching, `Esc` drops the search, `Enter` keeps
    /// it and other keys edit it; otherwise `q` quits, `j`/`k` and the
    /// arrows move, `g`/`G` go to the first/last line, `/` starts a search,
    /// `Tab` switches between flat and grouped, `a` adds, `i` imports and
    /// `Enter` opens the chosen connection.
    pub fn handle_key(&mut self, key: Key) -> (a: BrowseAction)
        ensures
            browse_key_spec(*old(self), key, *final(self), a),
    {
        if self.search_active {
            return match key.code {
                KeyCode::Esc => {
                    self.search_active = false;
                    self.search.reset();
                    self.selected = Some(0);
                    BrowseAction::Nothing
                },
                KeyCode::Enter => {
                    self.search_active = false;
                    BrowseAction::Nothing
                },
                _ => {
                    self.search.handle_key(key);
                    self.selected = Some(0);
                    BrowseAction::Nothing
                },
            };
        }
        match key.code {
            KeyCode::Char('q') => BrowseAction::Quit,
            KeyCode::Char('j') | KeyCode::Down => {
                self.move_selection(true);
                BrowseAction::Nothing
            },
            KeyCode::Char('k') | KeyCode::Up => {
                self.move_selection(false);
                BrowseAction::Nothing
            },
            KeyCode::Char('g') => {
                self.selected = Some(0);
                BrowseAction::Nothing
            },
            KeyCode::Char('G') => {
                if self.filtered_ids.len() > 0 {
                    self.selected = Some(self.filtered_ids.len() - 1);
                }
                BrowseAction::Nothing
            },
            KeyCode::Char('/') => {
                self.search_active = true;
                self.search.reset();
                BrowseAction::Nothing
            },
            KeyCode::Tab => {
                self.grouped = !self.grouped;
                self.selected = Some(0);
                BrowseAction::Nothing
            },
            KeyCode::Char('a') => BrowseAction::AddNew,
            KeyCode::Char('i') => BrowseAction::Import,
            KeyCode::Enter => {
                match self.selected_id() {
                    Some(id) => {
                        if !id.as_str().is_empty() {
                            return BrowseAction::ViewDetail(id);
                        }
                        BrowseAction::Nothing
                    },
                    None => BrowseAction::Nothing,
                }
            },
            _ => BrowseAction::Nothing,
        }
    }
}

} // verus!
