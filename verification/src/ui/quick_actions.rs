//! The quick-action popup: a searchable list of actions grouped by
//! category, and the form that collects an action's parameters before its
//! command is built.
use vstd::prelude::*;
use crate::ssh::actions::{
    action_views, build_actions, category_label, fill_template, ActionCategory, ActionParam, ParamType,
    QuickAction, QuickActionView,
};
use crate::text::{
    contains_text, lowercase, nonblank_trimmed, owned, pair_views, push_text, split_on,
    split_trimmed, starts_with, text_contains, text_starts_with, to_lower, views,
};
use crate::ui::input::{input_edit, Key, KeyCode, TextField};

verus! {

// ---------------------------------------------------------------------------
// Results
// ---------------------------------------------------------------------------

/// What a key press in the action list leads to.
pub enum ActionListResult {
    Nothing,
    Dismiss,
    Selected(QuickAction),
}

/// What a key press in the parameter form leads to.
pub enum ParamFormResult {
    Nothing,
    Cancel,
    /// The remote command to run.
    Execute(String),
}

// ---------------------------------------------------------------------------
// The action list
// ---------------------------------------------------------------------------

/// A line of the action list: a category heading or an action, by its
/// position among all actions.
#[derive(Debug, Clone, Copy, PartialEq, Eq, Structural)]
pub enum ListEntry {
    CategoryHeader(ActionCategory),
    Action(usize),
}

/// The searchable action list.
pub struct ActionListState {
    pub actions: Vec<QuickAction>,
    pub search: TextField,
    /// The lines shown.
    pub entries: Vec<ListEntry>,
    /// The positions in `entries` of the action lines.
    pub selectable: Vec<usize>,
    /// The chosen action line, as a position in `selectable`.
    pub selected: usize,
}

/// Whether an action matches a lowercased query: an empty query matches
/// everything; otherwise it must occur in the lowercased name, description
/// or category heading.
pub open spec fn action_matches(a: QuickActionView, q: Seq<char>) -> bool {
    ||| q.len() == 0
    ||| contains_text(lowercase(a.name), q)
    ||| contains_text(lowercase(a.description), q)
    ||| contains_text(lowercase(category_label(a.category)), q)
}

/// The positions of the actions that match a query, in order.
pub open spec fn matching(acts: Seq<QuickActionView>, q: Seq<char>) -> Seq<int>
    decreases acts.len(),
{
    if acts.len() == 0 {
        Seq::empty()
    } else {
        let m = matching(acts.drop_last(), q);
        if action_matches(acts.last(), q) { m.push(acts.len() - 1) } else { m }
    }
}

/// The lines of the list for the actions at positions `idxs`, and the
/// positions of the action lines: a heading goes before the first action
/// and before every action whose category differs from the previous one.
pub open spec fn layout(acts: Seq<QuickActionView>, idxs: Seq<int>) -> (Seq<ListEntry>, Seq<usize>)
    decreases idxs.len(),
{
    if idxs.len() == 0 {
        (Seq::empty(), Seq::empty())
    } else {
        let (e, s) = layout(acts, idxs.drop_last());
        let i = idxs.last();
        let c = acts[i].category;
        let header = idxs.len() == 1 || acts[idxs[idxs.len() - 2]].category != c;
        let e1 = if header { e.push(ListEntry::CategoryHeader(c)) } else { e };
        (e1.push(ListEntry::Action(i as usize)), s.push(e1.len() as usize))
    }
}

/// Each action line of a layout is at the position recorded for it and
/// shows the action it stands for, in the order of `idxs`.
pub proof fn lemma_layout_lines(acts: Seq<QuickActionView>, idxs: Seq<int>)
    requires
        2 * idxs.len() <= usize::MAX,
    ensures
        layout(acts, idxs).1.len() == idxs.len(),
        layout(acts, idxs).0.len() <= 2 * idxs.len(),
        forall|k: int|
            #![trigger layout(acts, idxs).1[k]]
            0 <= k < idxs.len() ==> layout(acts, idxs).1[k] < layout(acts, idxs).0.len()
                && layout(acts, idxs).0[layout(acts, idxs).1[k] as int] == ListEntry::Action(
                idxs[k] as usize,
            ),
    decreases idxs.len(),
{
    if idxs.len() > 0 {
        let init = idxs.drop_last();
        lemma_layout_lines(acts, init);
        let (e, s) = layout(acts, init);
        let i = idxs.last();
        let c = acts[i].category;
        let header = idxs.len() == 1 || acts[idxs[idxs.len() - 2]].category != c;
        let e1 = if header { e.push(ListEntry::CategoryHeader(c)) } else { e };
        let (e2, s2) = layout(acts, idxs);
        assert(e2 == e1.push(ListEntry::Action(i as usize)));
        assert(s2 == s.push(e1.len() as usize));
        assert forall|k: int| 0 <= k < idxs.len() implies #[trigger] s2[k] < e2.len() && e2[s2[k] as int] == ListEntry::Action(idxs[k] as usize) by {
            if k < init.len() {
                assert(layout(acts, init).1[k] < layout(acts, init).0.len());
                assert(s2[k] == s[k]);
                assert(idxs[k] == init[k]);
                assert(e1[s[k] as int] == e[s[k] as int]);
                assert(e2[s[k] as int] == e1[s[k] as int]);
            } else {
                assert(k == init.len());
                assert(s2[k] == e1.len());
                assert(e2[e1.len() as int] == ListEntry::Action(i as usize));
            }
        }
    }
}

/// The positions that `matching` gives are those of the matching actions,
/// each once and in increasing order.
pub proof fn lemma_matching_exact(acts: Seq<QuickActionView>, q: Seq<char>)
    ensures
        forall|k: int| 0 <= k < matching(acts, q).len() ==> 0 <= #[trigger] matching(acts, q)[k] < acts.len()
            && action_matches(acts[matching(acts, q)[k]], q),
        forall|j: int, k: int| 0 <= j < k < matching(acts, q).len()
            ==> #[trigger] matching(acts, q)[j] < #[trigger] matching(acts, q)[k],
        forall|i: int| 0 <= i < acts.len() && #[trigger] action_matches(acts[i], q)
            ==> exists|k: int| 0 <= k < matching(acts, q).len() && matching(acts, q)[k] == i,
    decreases acts.len(),
{
    if acts.len() > 0 {
        let init = acts.drop_last();
        lemma_matching_exact(init, q);
        let m = matching(init, q);
        assert forall|i: int| 0 <= i < acts.len() && #[trigger] action_matches(acts[i], q)
            implies exists|k: int| 0 <= k < matching(acts, q).len() && matching(acts, q)[k] == i by {
            if i < init.len() {
                assert(init[i] == acts[i]);
                assert(action_matches(init[i], q));
                let k = choose|k: int| 0 <= k < m.len() && m[k] == i;
                assert(matching(acts, q)[k] == i);
            } else {
                assert(matching(acts, q)[m.len() as int] == i);
            }
        }
        assert forall|k: int| 0 <= k < matching(acts, q).len()
            implies 0 <= #[trigger] matching(acts, q)[k] < acts.len()
                && action_matches(acts[matching(acts, q)[k]], q) by {
            if k < m.len() {
                assert(matching(acts, q)[k] == m[k]);
                assert(init[m[k]] == acts[m[k]]);
            }
        }
    }
}

/// An empty search selects every action, in order.
pub proof fn lemma_empty_search_matches_all(acts: Seq<QuickActionView>)
    ensures
        matching(acts, Seq::empty()) == Seq::new(acts.len(), |i: int| i),
    decreases acts.len(),
{
    if acts.len() > 0 {
        lemma_empty_search_matches_all(acts.drop_last());
        assert(Seq::new(acts.len(), |i: int| i) =~= Seq::new(acts.drop_last().len(), |i: int| i).push(
            acts.len() - 1,
        ));
    } else {
        assert(Seq::new(0, |i: int| i) =~= Seq::<int>::empty());
    }
}

/// A rebuilt list shows, as its action lines, exactly the actions that
/// match its lowercased search, in their order.
pub proof fn lemma_list_shows_matches(l: ActionListState)
    requires
        list_rebuilt(l),
        2 * l.actions@.len() <= usize::MAX,
    ensures
        ({
            let acts = action_views(l.actions@);
            let m = matching(acts, lowercase(l.search.value@));
            &&& l.selectable@.len() == m.len()
            &&& forall|k: int| #![trigger l.selectable@[k]] 0 <= k < l.selectable@.len()
                ==> l.selectable@[k] < l.entries@.len()
                && l.entries@[l.selectable@[k] as int] == ListEntry::Action(m[k] as usize)
                && m[k] < acts.len() && action_matches(acts[m[k]], lowercase(l.search.value@))
            &&& forall|i: int| 0 <= i < acts.len() && #[trigger] action_matches(acts[i], lowercase(l.search.value@))
                ==> exists|k: int| 0 <= k < m.len() && m[k] == i
        }),
{
    let acts = action_views(l.actions@);
    let q = lowercase(l.search.value@);
    let m = matching(acts, q);
    lemma_matching_exact(acts, q);
    lemma_matching_len(acts, q);
    lemma_layout_lines(acts, m);
    assert forall|k: int| #![trigger l.selectable@[k]] 0 <= k < l.selectable@.len()
        implies l.selectable@[k] < l.entries@.len()
            && l.entries@[l.selectable@[k] as int] == ListEntry::Action(m[k] as usize)
            && m[k] < acts.len() && action_matches(acts[m[k]], q) by {
        assert(layout(acts, m).1[k] == l.selectable@[k]);
        assert(0 <= matching(acts, q)[k] < acts.len());
    }
}

/// No more positions match than there are actions.
pub proof fn lemma_matching_len(acts: Seq<QuickActionView>, q: Seq<char>)
    ensures
        matching(acts, q).len() <= acts.len(),
    decreases acts.len(),
{
    if acts.len() > 0 {
        lemma_matching_len(acts.drop_last(), q);
    }
}

/// Whether the list shows what its search selects, with the first action
/// line chosen.
pub open spec fn list_rebuilt(l: ActionListState) -> bool {
    let acts = action_views(l.actions@);
    &&& (l.entries@, l.selectable@) == layout(acts, matching(acts, lowercase(l.search.value@)))
    &&& l.selected == 0
}

/// The action chosen by `Enter`, if the chosen line is an action line.
pub open spec fn chosen_action(l: ActionListState) -> Option<QuickActionView> {
    if l.selected < l.selectable@.len() && l.selectable@[l.selected as int] < l.entries@.len() {
        match l.entries@[l.selectable@[l.selected as int] as int] {
            ListEntry::Action(ai) => if ai < l.actions@.len() { Some(l.actions@[ai as int]@) } else { None },
            _ => None,
        }
    } else {
        None
    }
}

/// What a key press does to the action list `l`, giving `l2` and `r`.
pub open spec fn list_key_spec(l: ActionListState, key: Key, l2: ActionListState, r: ActionListResult) -> bool {
    &&& l2.actions@ == l.actions@
    &&& match key.code {
        KeyCode::Esc => if l.search.value@.len() == 0 {
            r is Dismiss && l2 == l
        } else {
            r is Nothing && l2.search.value@.len() == 0 && l2.search.cursor == 0 && list_rebuilt(l2)
        },
        KeyCode::Down => r is Nothing && l2.search == l.search && l2.entries@ == l.entries@
            && l2.selectable@ == l.selectable@
            && l2.selected == (if l.selected + 1 < l.selectable@.len() { l.selected + 1 } else { l.selected as int }),
        KeyCode::Up => r is Nothing && l2.search == l.search && l2.entries@ == l.entries@
            && l2.selectable@ == l.selectable@
            && l2.selected == (if l.selected > 0 { l.selected - 1 } else { l.selected as int }),
        KeyCode::Enter => l2 == l && match chosen_action(l) {
            Some(a) => r matches ActionListResult::Selected(x) && x@ == a,
            None => r is Nothing,
        },
        _ => r is Nothing && (l2.search.value@, l2.search.cursor) == input_edit(l.search.value@, l.search.cursor, key)
            && list_rebuilt(l2),
    }
}

/// Whether an action matches a lowercased query.
fn matches_query(a: &QuickAction, q: &str) -> (r: bool)
    ensures
        r == action_matches(a@, q@),
{
    if q.is_empty() {
        return true;
    }
    let name = to_lower(a.name);
    if text_contains(name.as_str(), q) {
        return true;
    }
    let description = to_lower(a.description);
    if text_contains(description.as_str(), q) {
        return true;
    }
    let label = to_lower(a.category.label());
    text_contains(label.as_str(), q)
}

impl ActionListState {
    /// The list of all predefined actions, with an empty search.
    pub fn new() -> (l: ActionListState)
        ensures
            action_views(l.actions@) == crate::ssh::actions::action_catalog(),
            l.actions@.len() == crate::ssh::actions::action_count(),
            l.search.value@.len() == 0,
            list_rebuilt(l),
    {
        let mut l = ActionListState {
            actions: build_actions(),
            search: TextField::empty(),
            entries: Vec::new(),
            selectable: Vec::new(),
            selected: 0,
        };
        l.rebuild_filtered();
        l
    }

    /// Rebuilds the lines from the search and chooses the first action line.
    pub fn rebuild_filtered(&mut self)
        ensures
            final(self).actions == old(self).actions,
            final(self).search == old(self).search,
            list_rebuilt(*final(self)),
    {
        let q = to_lower(self.search.value());
        let ghost acts = action_views(self.actions@);
        let mut entries: Vec<ListEntry> = Vec::new();
        let mut selectable: Vec<usize> = Vec::new();
        let mut last: Option<ActionCategory> = None;
        let mut i: usize = 0;
        while i < self.actions.len()
            invariant
                i <= self.actions.len(),
                acts == action_views(self.actions@),
                (entries@, selectable@) == layout(acts, matching(acts.take(i as int), q@)),
                ({
                    let m = matching(acts.take(i as int), q@);
                    last == (if m.len() == 0 { None } else { Some(acts[m.last()].category) })
                }),
                forall|k: int| 0 <= k < matching(acts.take(i as int), q@).len()
                    ==> 0 <= #[trigger] matching(acts.take(i as int), q@)[k] < i,
            decreases self.actions.len() - i,
        {
            let ghost m = matching(acts.take(i as int), q@);
            assert(acts.take(i + 1).drop_last() =~= acts.take(i as int));
            assert(acts.take(i + 1).last() == acts[i as int]);
            assert(acts[i as int] == self.actions@[i as int]@);
            if matches_query(&self.actions[i], q.as_str()) {
                let c = self.actions[i].category;
                let ghost m1 = m.push(i as int);
                assert(matching(acts.take(i + 1), q@) == m1);
                assert(m1.drop_last() =~= m);
                let header = match last {
                    Some(lc) => lc != c,
                    None => true,
                };
                proof {
                    if m.len() > 0 {
                        assert(m1[m1.len() - 2] == m.last());
                    }
                }
                if header {
                    entries.push(ListEntry::CategoryHeader(c));
                }
                selectable.push(entries.len());
                entries.push(ListEntry::Action(i));
                last = Some(c);
                assert(forall|k: int| 0 <= k < m1.len() ==> 0 <= #[trigger] m1[k] < i + 1);
            } else {
                assert(matching(acts.take(i + 1), q@) == m);
            }
            i = i + 1;
        }
        assert(acts.take(self.actions.len() as int) =~= acts);
        self.entries = entries;
        self.selectable = selectable;
        self.selected = 0;
    }

    /// The line of `entries` that is chosen, if any.
    pub fn highlighted(&self) -> (r: Option<usize>)
        ensures
            r == (if self.selected < self.selectable@.len() {
                Some(self.selectable@[self.selected as int])
            } else {
                None
            }),
    {
        if self.selected < self.selectable.len() {
            Some(self.selectable[self.selected])
        } else {
            None
        }
    }

    /// A key press: `Esc` clears the search or closes the list, the arrows
    /// move among the action lines, `Enter` picks the chosen action, and any
    /// other key edits the search.
    pub fn handle_key(&mut self, key: Key) -> (r: ActionListResult)
        ensures
            list_key_spec(*old(self), key, *final(self), r),
    {
        match key.code {
            KeyCode::Esc => {
                if self.search.value().is_empty() {
                    ActionListResult::Dismiss
                } else {
                    self.search.reset();
                    self.rebuild_filtered();
                    ActionListResult::Nothing
                }
            },
            KeyCode::Down => {
                if self.selectable.len() > 0 && self.selected < self.selectable.len() - 1 {
                    self.selected = self.selected + 1;
                }
                ActionListResult::Nothing
            },
            KeyCode::Up => {
                if self.selected > 0 {
                    self.selected = self.selected - 1;
                }
                ActionListResult::Nothing
            },
            KeyCode::Enter => {
                if self.selected < self.selectable.len() {
                    let ei = self.selectable[self.selected];
                    if ei < self.entries.len() {
                        match self.entries[ei] {
                            ListEntry::Action(ai) => {
                                if ai < self.actions.len() {
                                    return ActionListResult::Selected(self.actions[ai].duplicate());
                                }
                            },
                            _ => {},
                        }
                    }
                }
                ActionListResult::Nothing
            },
            _ => {
                self.search.handle_key(key);
                self.rebuild_filtered();
                ActionListResult::Nothing
            },
        }
    }
}

// ---------------------------------------------------------------------------
// The parameter form
// ---------------------------------------------------------------------------

/// The options of a pick-one field.
pub enum SelectState {
    /// The remote command that lists them has not answered yet.
    Loading,
    Loaded(Vec<String>),
    Error(String),
}

/// How a field is edited.
pub enum FieldKind {
    Text(TextField),
    Select { state: SelectState, selected: usize, expanded: bool, search: TextField, filtered: Vec<usize> },
    Confirm(bool),
}

/// A field of the form.
pub struct FieldState {
    pub param: ActionParam,
    pub kind: FieldKind,
}

/// The parameter form. The focus is a field, or the submit button after
/// the last field.
pub struct ParamFormState {
    pub action: QuickAction,
    pub fields: Vec<FieldState>,
    pub focused: usize,
    pub confirm_message: Option<&'static str>,
    pub confirm_shown: bool,
    pub confirmed: bool,
}

/// The positions of the options that contain a lowercased query (all of
/// them for an empty query), in order.
pub open spec fn filter_options(opts: Seq<String>, q: Seq<char>) -> Seq<usize>
    decreases opts.len(),
{
    if opts.len() == 0 {
        Seq::empty()
    } else {
        let f = filter_options(opts.drop_last(), q);
        if q.len() == 0 || contains_text(lowercase(opts.last()@), q) {
            f.push((opts.len() - 1) as usize)
        } else {
            f
        }
    }
}

/// The value a field gives: the text of a text field, the chosen option of
/// a loaded pick-one field (empty when none is chosen or the options are
/// not there), and `yes` or `no` for a confirmation.
pub open spec fn field_value(k: FieldKind) -> Seq<char> {
    match k {
        FieldKind::Text(t) => t.value@,
        FieldKind::Select { state, selected, filtered, .. } => match state {
            SelectState::Loaded(opts) => if selected < filtered@.len() && filtered@[selected as int] < opts@.len() {
                opts@[filtered@[selected as int] as int]@
            } else {
                Seq::empty()
            },
            _ => Seq::empty(),
        },
        FieldKind::Confirm(v) => if v { "yes"@ } else { "no"@ },
    }
}

/// The `(key, value)` pairs of the fields, in order.
pub open spec fn form_values(fields: Seq<FieldState>) -> Seq<(Seq<char>, Seq<char>)> {
    fields.map_values(|f: FieldState| (f.param.key@, field_value(f.kind)))
}

/// Whether every confirmation field is answered yes.
pub open spec fn all_confirmed(fields: Seq<FieldState>) -> bool {
    forall|i: int| 0 <= i < fields.len() ==> !(#[trigger] fields[i].kind matches FieldKind::Confirm(false))
}

/// Whether two forms agree on everything but their fields.
pub open spec fn same_but_fields(f: ParamFormState, f2: ParamFormState) -> bool {
    &&& f2.action == f.action
    &&& f2.focused == f.focused
    &&& f2.confirm_message == f.confirm_message
    &&& f2.confirm_shown == f.confirm_shown
    &&& f2.confirmed == f.confirmed
}

/// What submitting form `f` does: nothing while a confirmation is not
/// answered yes; the confirmation question when the action has one that is
/// not answered yet; else the command with the field values filled in.
pub open spec fn submit_spec(f: ParamFormState, f2: ParamFormState, r: ParamFormResult) -> bool {
    if !all_confirmed(f.fields@) {
        r is Nothing && f2 == f
    } else if f.confirm_message is Some && !f.confirmed {
        r is Nothing && same_but_fields(ParamFormState { confirm_shown: true, ..f }, f2) && f2.fields@ == f.fields@
    } else {
        &&& r matches ParamFormResult::Execute(cmd) && cmd@ == fill_template(f.action.command_template@, form_values(f.fields@))
        &&& f2 == f
    }
}

/// The focus after the one of `f` (from the submit button to the first field).
pub open spec fn next_focus(f: ParamFormState) -> usize {
    ((f.focused + 1) as int % (f.fields@.len() + 1) as int) as usize
}

proof fn lemma_next_focus(f: int, n: int)
    requires
        0 <= f <= n,
    ensures
        (f + 1) % (n + 1) == (if f == n { 0 } else { f + 1 }),
{
    if f == n {
        assert((n + 1) % (n + 1) == 0) by (nonlinear_arith)
            requires
                n >= 0,
        ;
    } else {
        assert((f + 1) % (n + 1) == f + 1) by (nonlinear_arith)
            requires
                0 <= f < n,
        ;
    }
}

/// The focus before the one of `f` (from the first field to the submit button).
pub open spec fn prev_focus(f: ParamFormState) -> usize {
    if f.focused == 0 { f.fields@.len() as usize } else { (f.focused - 1) as usize }
}

/// What a key does to the open option list of the focused pick-one field
/// `fs`, giving `fs2`.
pub open spec fn open_select_spec(fs: FieldState, key: Key, fs2: FieldState) -> bool {
    match fs.kind {
        FieldKind::Select { state, selected, expanded, search, filtered } => {
            &&& fs2.param == fs.param
            &&& match key.code {
                KeyCode::Down => fs2.kind == FieldKind::Select {
                    state, search, filtered, expanded,
                    selected: if selected + 1 < filtered@.len() { (selected + 1) as usize } else { selected },
                },
                KeyCode::Up => fs2.kind == FieldKind::Select {
                    state, search, filtered, expanded,
                    selected: if selected > 0 { (selected - 1) as usize } else { selected },
                },
                KeyCode::Enter => fs2.kind == FieldKind::Select { state, search, filtered, selected, expanded: false },
                KeyCode::Esc => if search.value@.len() == 0 {
                    fs2.kind == FieldKind::Select { state, search, filtered, selected, expanded: false }
                } else {
                    fs2.kind matches FieldKind::Select { state: s2, selected: sel2, expanded: e2, search: q2, filtered: f2 }
                        && s2 == state && sel2 == 0 && e2 && q2.value@.len() == 0 && q2.cursor == 0
                        && f2@ == filter_options(match state { SelectState::Loaded(o) => o@, _ => Seq::empty() }, Seq::empty())
                },
                _ => fs2.kind matches FieldKind::Select { state: s2, selected: sel2, expanded: e2, search: q2, filtered: f2 }
                    && s2 == state && sel2 == 0 && e2
                    && (q2.value@, q2.cursor) == input_edit(search.value@, search.cursor, key)
                    && f2@ == filter_options(match state { SelectState::Loaded(o) => o@, _ => Seq::empty() }, lowercase(q2.value@)),
            }
        },
        _ => false,
    }
}

/// What a key does to the focused field `fs` when no option list is open.
pub open spec fn field_key_spec(fs: FieldState, key: Key, fs2: FieldState) -> bool {
    &&& fs2.param == fs.param
    &&& match fs.kind {
        FieldKind::Text(t) => fs2.kind matches FieldKind::Text(t2)
            && (t2.value@, t2.cursor) == input_edit(t.value@, t.cursor, key),
        FieldKind::Confirm(v) => fs2.kind == FieldKind::Confirm(match key.code {
            KeyCode::Char('y') => true,
            KeyCode::Char('n') => false,
            _ => v,
        }),
        FieldKind::Select { .. } => fs2.kind == fs.kind,
    }
}

/// Whether the focused field of `f` is a pick-one field with loaded
/// options, and whether its list is open.
pub open spec fn focused_loaded_select(f: ParamFormState, open: bool) -> bool {
    &&& f.focused < f.fields@.len()
    &&& f.fields@[f.focused as int].kind matches FieldKind::Select { state: SelectState::Loaded(_), expanded, .. }
    &&& expanded == open
}

/// What a key press does to form `f`, giving form `f2` and result `r`.
pub open spec fn form_key_spec(f: ParamFormState, key: Key, f2: ParamFormState, r: ParamFormResult) -> bool {
    if f.confirm_shown {
        if key.code == KeyCode::Char('y') {
            submit_spec(ParamFormState { confirmed: true, confirm_shown: false, ..f }, f2, r)
        } else {
            r is Nothing && same_but_fields(ParamFormState { confirm_shown: false, ..f }, f2) && f2.fields@ == f.fields@
        }
    } else if focused_loaded_select(f, true) {
        &&& r is Nothing && same_but_fields(f, f2)
        &&& f2.fields@.len() == f.fields@.len()
        &&& open_select_spec(f.fields@[f.focused as int], key, f2.fields@[f.focused as int])
        &&& f2.fields@ == f.fields@.update(f.focused as int, f2.fields@[f.focused as int])
    } else {
        match key.code {
            KeyCode::Esc => r is Cancel && f2 == f,
            KeyCode::Tab | KeyCode::Down => r is Nothing && f2.fields@ == f.fields@
                && same_but_fields(ParamFormState { focused: next_focus(f), ..f }, f2),
            KeyCode::BackTab | KeyCode::Up => r is Nothing && f2.fields@ == f.fields@
                && same_but_fields(ParamFormState { focused: prev_focus(f), ..f }, f2),
            KeyCode::Enter => if f.focused == f.fields@.len() {
                submit_spec(f, f2, r)
            } else if focused_loaded_select(f, false) {
                &&& r is Nothing && same_but_fields(f, f2)
                &&& f2.fields@.len() == f.fields@.len()
                &&& f2.fields@ == f.fields@.update(f.focused as int, f2.fields@[f.focused as int])
                &&& f2.fields@[f.focused as int].param == f.fields@[f.focused as int].param
                &&& match f.fields@[f.focused as int].kind {
                    FieldKind::Select { state, selected, search, filtered, .. } =>
                        f2.fields@[f.focused as int].kind == FieldKind::Select { state, selected, search, filtered, expanded: true },
                    _ => false,
                }
            } else {
                r is Nothing && f2.fields@ == f.fields@ && same_but_fields(ParamFormState { focused: next_focus(f), ..f }, f2)
            },
            _ => r is Nothing && same_but_fields(f, f2) && if f.focused < f.fields@.len() {
                &&& f2.fields@.len() == f.fields@.len()
                &&& field_key_spec(f.fields@[f.focused as int], key, f2.fields@[f.focused as int])
                &&& f2.fields@ == f.fields@.update(f.focused as int, f2.fields@[f.focused as int])
            } else {
                f2.fields@ == f.fields@
            },
        }
    }
}

/// Whether the focus of a form is a field or the submit button.
pub open spec fn form_ok(f: ParamFormState) -> bool {
    f.focused <= f.fields@.len()
}

/// The field for a parameter: a text field holding the default, a
/// pick-one field waiting for its options, or an unanswered confirmation.
pub open spec fn initial_field(p: ActionParam, fs: FieldState) -> bool {
    &&& fs.param == p
    &&& match p.param_type {
        ParamType::Text { default } => fs.kind matches FieldKind::Text(t) && t.value@ == default@,
        ParamType::Select { .. } => fs.kind matches FieldKind::Select { state: SelectState::Loading, selected, expanded, search, filtered }
            && selected == 0 && !expanded && search.value@.len() == 0 && filtered@.len() == 0,
        ParamType::Confirm => fs.kind == FieldKind::Confirm(false),
    }
}

/// The positions `0..n`.
pub open spec fn all_positions(n: nat) -> Seq<usize> {
    Seq::new(n, |i: int| i as usize)
}

/// An empty search shows every option, in order.
pub proof fn lemma_empty_search_shows_all(opts: Seq<String>)
    ensures
        filter_options(opts, Seq::empty()) == all_positions(opts.len()),
    decreases opts.len(),
{
    if opts.len() > 0 {
        lemma_empty_search_shows_all(opts.drop_last());
        assert(all_positions(opts.len()) =~= all_positions(opts.drop_last().len()).push((opts.len() - 1) as usize));
    } else {
        assert(all_positions(0) =~= Seq::<usize>::empty());
    }
}

/// The positions of the options that contain a lowercased query.
fn filter_opts(opts: &Vec<String>, q: &str) -> (r: Vec<usize>)
    ensures
        r@ == filter_options(opts@, q@),
{
    let mut r: Vec<usize> = Vec::new();
    let mut i: usize = 0;
    while i < opts.len()
        invariant
            i <= opts.len(),
            r@ == filter_options(opts@.take(i as int), q@),
        decreases opts.len() - i,
    {
        assert(opts@.take(i + 1).drop_last() =~= opts@.take(i as int));
        assert(opts@.take(i + 1).last() == opts@[i as int]);
        let keep = if q.is_empty() {
            true
        } else {
            let low = to_lower(opts[i].as_str());
            text_contains(low.as_str(), q)
        };
        if keep {
            r.push(i);
        }
        i = i + 1;
    }
    assert(opts@.take(opts.len() as int) =~= opts@);
    r
}

/// The value a field gives.
fn value_of(k: &FieldKind) -> (r: String)
    ensures
        r@ == field_value(*k),
{
    match k {
        FieldKind::Text(t) => owned(t.value()),
        FieldKind::Select { state, selected, filtered, .. } => match state {
            SelectState::Loaded(opts) => {
                if *selected < filtered.len() && filtered[*selected] < opts.len() {
                    owned(opts[filtered[*selected]].as_str())
                } else {
                    String::new()
                }
            },
            _ => String::new(),
        },
        FieldKind::Confirm(v) => if *v { owned("yes") } else { owned("no") },
    }
}

/// The field for a parameter.
fn initial_field_for(p: ActionParam) -> (fs: FieldState)
    ensures
        initial_field(p, fs),
{
    let kind = match p.param_type {
        ParamType::Text { default } => FieldKind::Text(TextField::with_value(owned(default))),
        ParamType::Select { .. } => FieldKind::Select {
            state: SelectState::Loading,
            selected: 0,
            expanded: false,
            search: TextField::empty(),
            filtered: Vec::new(),
        },
        ParamType::Confirm => FieldKind::Confirm(false),
    };
    FieldState { param: p, kind }
}

/// The options in the output of the command that lists a pick-one field's
/// choices: its lines, trimmed, without the blank ones.
pub fn option_lines(stdout: &str) -> (r: Vec<String>)
    ensures
        views(r@) == nonblank_trimmed(split_on(stdout@, '\n')),
{
    split_trimmed(stdout, '\n')
}

/// The single option that reports a failed listing: `ERROR: ` and the message.
pub fn fetch_failure(message: &str) -> (r: Vec<String>)
    ensures
        r@.len() == 1,
        r@[0]@ == "ERROR: "@ + message@,
{
    let mut e = owned("ERROR: ");
    push_text(&mut e, message);
    let mut r: Vec<String> = Vec::new();
    r.push(e);
    r
}

/// What handing options to field `index` of form `f` does, giving `f2`:
/// a pick-one field still waiting takes them (a single option starting
/// with `ERROR:` is the failure to show; otherwise all options are loaded
/// and shown); nothing else changes.
pub open spec fn options_delivered(f: ParamFormState, index: usize, options: Seq<String>, f2: ParamFormState) -> bool {
    &&& same_but_fields(f, f2)
    &&& f2.fields@.len() == f.fields@.len()
    &&& forall|i: int| 0 <= i < f.fields@.len() && i != index ==> #[trigger] f2.fields@[i] == f.fields@[i]
    &&& index < f.fields@.len() ==> match f.fields@[index as int].kind {
        FieldKind::Select { state: SelectState::Loading, selected, expanded, search, .. } => {
            let fs2 = f2.fields@[index as int];
            &&& fs2.param == f.fields@[index as int].param
            &&& if options.len() == 1 && starts_with(options[0]@, "ERROR:"@) {
                fs2.kind matches FieldKind::Select { state: SelectState::Error(e), selected: s2, expanded: e2, search: q2, .. }
                    && e@ == options[0]@ && s2 == selected && e2 == expanded && q2 == search
            } else {
                fs2.kind matches FieldKind::Select { state: SelectState::Loaded(o), selected: s2, expanded: e2, search: q2, filtered }
                    && o@ == options && filtered@ == all_positions(options.len())
                    && s2 == selected && e2 == expanded && q2 == search
            }
        },
        _ => f2.fields@[index as int] == f.fields@[index as int],
    }
}

impl ParamFormState {
    /// The form for an action: one field per parameter, the first focused.
    /// Pick-one fields wait for their options (see `deliver_options`).
    pub fn new(action: QuickAction) -> (f: ParamFormState)
        ensures
            f.action == action,
            f.fields@.len() == action.params@.len(),
            forall|i: int| 0 <= i < f.fields@.len() ==> initial_field(action.params@[i], #[trigger] f.fields@[i]),
            f.focused == 0,
            f.confirm_message == action.confirm_message,
            !f.confirm_shown,
            !f.confirmed,
    {
        let mut fields: Vec<FieldState> = Vec::new();
        let mut i: usize = 0;
        while i < action.params.len()
            invariant
                i <= action.params.len(),
                fields@.len() == i,
                forall|k: int| 0 <= k < i ==> initial_field(action.params@[k], #[trigger] fields@[k]),
            decreases action.params.len() - i,
        {
            fields.push(initial_field_for(action.params[i]));
            i = i + 1;
        }
        let confirm_message = action.confirm_message;
        ParamFormState { action, fields, focused: 0, confirm_message, confirm_shown: false, confirmed: false }
    }

    /// The pick-one fields and the remote commands that list their options.
    pub fn select_fetches(&self) -> (r: Vec<(usize, &'static str)>)
        ensures
            forall|k: int| 0 <= k < r@.len() ==> {
                let (i, cmd) = #[trigger] r@[k];
                &&& i < self.fields@.len()
                &&& self.fields@[i as int].param.param_type matches ParamType::Select { fetch_command }
                &&& cmd@ == fetch_command@
            },
            forall|i: int| 0 <= i < self.fields@.len() && (#[trigger] self.fields@[i].param.param_type is Select)
                ==> exists|k: int| 0 <= k < r@.len() && r@[k].0 == i,
    {
        let mut r: Vec<(usize, &'static str)> = Vec::new();
        let mut i: usize = 0;
        while i < self.fields.len()
            invariant
                i <= self.fields.len(),
                forall|k: int| 0 <= k < r@.len() ==> {
                    let (j, cmd) = #[trigger] r@[k];
                    &&& j < i
                    &&& self.fields@[j as int].param.param_type matches ParamType::Select { fetch_command }
                    &&& cmd@ == fetch_command@
                },
                forall|j: int| 0 <= j < i && (#[trigger] self.fields@[j].param.param_type is Select)
                    ==> exists|k: int| 0 <= k < r@.len() && r@[k].0 == j,
            decreases self.fields.len() - i,
        {
            let ghost old_r = r@;
            match self.fields[i].param.param_type {
                ParamType::Select { fetch_command } => {
                    r.push((i, fetch_command));
                    assert(r@[r@.len() - 1].0 == i);
                },
                _ => {},
            }
            assert forall|j: int| 0 <= j < i + 1 && (#[trigger] self.fields@[j].param.param_type is Select)
                implies exists|k: int| 0 <= k < r@.len() && r@[k].0 == j by {
                if j < i {
                    let k = choose|k: int| 0 <= k < old_r.len() && old_r[k].0 == j;
                    assert(r@[k] == old_r[k]);
                } else {
                    assert(r@[r@.len() - 1].0 == j);
                }
            }
            i = i + 1;
        }
        r
    }

    /// Hands the options listed for field `index` to it, if it is a
    /// pick-one field still waiting: a single option starting with
    /// `ERROR:` is the failure to show; otherwise the options are loaded
    /// and all of them shown.
    pub fn deliver_options(&mut self, index: usize, options: Vec<String>)
        ensures
            options_delivered(*old(self), index, options@, *final(self)),
    {
        if index >= self.fields.len() {
            return;
        }
        let waiting = match &self.fields[index].kind {
            FieldKind::Select { state: SelectState::Loading, .. } => true,
            _ => false,
        };
        if !waiting {
            return;
        }
        let ghost before = self.fields@;
        let field = self.fields.remove(index);
        let FieldState { param, kind } = field;
        let new_kind = match kind {
            FieldKind::Select { state, selected, expanded, search, filtered } => {
                if options.len() == 1 && text_starts_with(options[0].as_str(), "ERROR:") {
                    let e = owned(options[0].as_str());
                    FieldKind::Select { state: SelectState::Error(e), selected, expanded, search, filtered }
                } else {
                    let mut all: Vec<usize> = Vec::new();
                    let mut i: usize = 0;
                    while i < options.len()
                        invariant
                            i <= options.len(),
                            all@ == all_positions(i as nat),
                        decreases options.len() - i,
                    {
                        all.push(i);
                        assert(all@ =~= all_positions((i + 1) as nat));
                        i = i + 1;
                    }
                    FieldKind::Select { state: SelectState::Loaded(options), selected, expanded, search, filtered: all }
                }
            },
            other => other,
        };
        self.fields.insert(index, FieldState { param, kind: new_kind });
    }

    /// The values of the fields, keyed by their parameters.
    fn values(&self) -> (r: Vec<(String, String)>)
        ensures
            pair_views(r@) == form_values(self.fields@),
    {
        let mut r: Vec<(String, String)> = Vec::new();
        let mut i: usize = 0;
        while i < self.fields.len()
            invariant
                i <= self.fields.len(),
                pair_views(r@) == form_values(self.fields@).take(i as int),
            decreases self.fields.len() - i,
        {
            let k = owned(self.fields[i].param.key);
            let v = value_of(&self.fields[i].kind);
            let ghost prev = r@;
            r.push((k, v));
            assert(pair_views(r@) =~= pair_views(prev).push((k@, v@)));
            assert(form_values(self.fields@).take(i + 1) =~= form_values(self.fields@).take(i as int).push((k@, v@)));
            i = i + 1;
        }
        assert(form_values(self.fields@).take(self.fields.len() as int) =~= form_values(self.fields@));
        r
    }

    /// Submits the form.
    fn try_submit(&mut self) -> (r: ParamFormResult)
        ensures
            submit_spec(*old(self), *final(self), r),
    {
        let mut i: usize = 0;
        while i < self.fields.len()
            invariant
                i <= self.fields.len(),
                forall|k: int| 0 <= k < i ==> !(#[trigger] self.fields@[k].kind matches FieldKind::Confirm(false)),
            decreases self.fields.len() - i,
        {
            match &self.fields[i].kind {
                FieldKind::Confirm(v) => {
                    if !*v {
                        return ParamFormResult::Nothing;
                    }
                },
                _ => {},
            }
            i = i + 1;
        }
        if self.confirm_message.is_some() && !self.confirmed {
            self.confirm_shown = true;
            return ParamFormResult::Nothing;
        }
        let values = self.values();
        ParamFormResult::Execute(self.action.build_command(values.as_slice()))
    }

    /// A key press: the confirmation question takes `y` (yes) or any other
    /// key (no); an open option list takes the arrows, `Enter` (choose),
    /// `Esc` (clear the search, then close) and typing (search); otherwise
    /// `Esc` cancels, `Tab`/`Down` and `BackTab`/`Up` move the focus, `Enter`
    /// submits on the button, opens a pick-one field or moves on, and other
    /// keys edit the focused field.
    pub fn handle_key(&mut self, key: Key) -> (r: ParamFormResult)
        requires
            form_ok(*old(self)),
        ensures
            form_ok(*final(self)),
            form_key_spec(*old(self), key, *final(self), r),
    {
        if self.confirm_shown {
            if key.code == KeyCode::Char('y') {
                self.confirmed = true;
                self.confirm_shown = false;
                return self.try_submit();
            } else {
                self.confirm_shown = false;
                return ParamFormResult::Nothing;
            }
        }
        let fi = self.focused;
        let open_select = fi < self.fields.len() && match &self.fields[fi].kind {
            FieldKind::Select { state: SelectState::Loaded(_), expanded, .. } => *expanded,
            _ => false,
        };
        if open_select {
            let ghost before = self.fields@;
            let field = self.fields.remove(fi);
            let FieldState { param, kind } = field;
            let new_kind = match kind {
                FieldKind::Select { state, selected, expanded, search, filtered } => {
                    match key.code {
                        KeyCode::Down => {
                            let s = if filtered.len() > 0 && selected < filtered.len() - 1 { selected + 1 } else { selected };
                            FieldKind::Select { state, selected: s, expanded, search, filtered }
                        },
                        KeyCode::Up => {
                            let s = if selected > 0 { selected - 1 } else { selected };
                            FieldKind::Select { state, selected: s, expanded, search, filtered }
                        },
                        KeyCode::Enter => FieldKind::Select { state, selected, expanded: false, search, filtered },
                        KeyCode::Esc => {
                            if search.value().is_empty() {
                                FieldKind::Select { state, selected, expanded: false, search, filtered }
                            } else {
                                let all = match &state {
                                    SelectState::Loaded(opts) => {
                                        let none = String::new();
                                        filter_opts(opts, none.as_str())
                                    },
                                    _ => Vec::new(),
                                };
                                FieldKind::Select { state, selected: 0, expanded, search: TextField::empty(), filtered: all }
                            }
                        },
                        _ => {
                            let mut q = search;
                            q.handle_key(key);
                            let low = to_lower(q.value());
                            let f = match &state {
                                SelectState::Loaded(opts) => filter_opts(opts, low.as_str()),
                                _ => Vec::new(),
                            };
                            FieldKind::Select { state, selected: 0, expanded, search: q, filtered: f }
                        },
                    }
                },
                other => other,
            };
            self.fields.insert(fi, FieldState { param, kind: new_kind });
            assert(self.fields@ =~= before.update(fi as int, self.fields@[fi as int]));
            return ParamFormResult::Nothing;
        }
        let last = self.fields.len();
        proof {
            lemma_next_focus(self.focused as int, last as int);
        }
        match key.code {
            KeyCode::Esc => ParamFormResult::Cancel,
            KeyCode::Tab | KeyCode::Down => {
                self.focused = if self.focused == last { 0 } else { self.focused + 1 };
                ParamFormResult::Nothing
            },
            KeyCode::BackTab | KeyCode::Up => {
                self.focused = if self.focused == 0 { last } else { self.focused - 1 };
                ParamFormResult::Nothing
            },
            KeyCode::Enter => {
                if self.focused == self.fields.len() {
                    return self.try_submit();
                }
                let loaded_select = match &self.fields[fi].kind {
                    FieldKind::Select { state: SelectState::Loaded(_), .. } => true,
                    _ => false,
                };
                if loaded_select {
                    let ghost before = self.fields@;
                    let field = self.fields.remove(fi);
                    let FieldState { param, kind } = field;
                    let new_kind = match kind {
                        FieldKind::Select { state, selected, search, filtered, .. } =>
                            FieldKind::Select { state, selected, expanded: true, search, filtered },
                        other => other,
                    };
                    self.fields.insert(fi, FieldState { param, kind: new_kind });
                    assert(self.fields@ =~= before.update(fi as int, self.fields@[fi as int]));
                    return ParamFormResult::Nothing;
                }
                self.focused = if self.focused == last { 0 } else { self.focused + 1 };
                ParamFormResult::Nothing
            },
            _ => {
                if fi < self.fields.len() {
                    let ghost before = self.fields@;
                    let field = self.fields.remove(fi);
                    let FieldState { param, kind } = field;
                    let new_kind = match kind {
                        FieldKind::Text(t) => {
                            let mut t = t;
                            t.handle_key(key);
                            FieldKind::Text(t)
                        },
                        FieldKind::Confirm(v) => FieldKind::Confirm(match key.code {
                            KeyCode::Char('y') => true,
                            KeyCode::Char('n') => false,
                            _ => v,
                        }),
                        other => other,
                    };
                    self.fields.insert(fi, FieldState { param, kind: new_kind });
                    assert(self.fields@ =~= before.update(fi as int, self.fields@[fi as int]));
                }
                ParamFormResult::Nothing
            },
        }
    }
}

} // verus!
