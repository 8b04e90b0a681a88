//! The details of one connection, with the delete confirmation and the
//! quick-action popups on top.
use vstd::prelude::*;
use crate::model::store::{index_of_id, ConnectionStore};
use crate::ssh::actions::fill_template;
use crate::text::owned;
use crate::ui::app::DetailAction;
use crate::ui::input::{Key, KeyCode};
use crate::ui::quick_actions::{
    form_key_spec, form_ok, list_key_spec, options_delivered, ActionListResult, ActionListState, ParamFormResult,
    ParamFormState,
};

verus! {

/// What is shown on top of the details.
pub enum Overlay {
    Nothing,
    ActionList(ActionListState),
    ParamForm(ParamFormState),
}

/// The details screen.
pub struct DetailState {
    pub connection_id: String,
    pub confirm_delete: bool,
    pub overlay: Overlay,
}

/// Whether the overlay, if it is a form, has its focus on a field or the
/// submit button.
pub open spec fn detail_ok(d: DetailState) -> bool {
    d.overlay matches Overlay::ParamForm(f) ==> form_ok(f)
}

/// Whether an action needs its form: it has parameters or asks for
/// confirmation.
pub open spec fn needs_form(a: crate::ssh::actions::QuickActionView) -> bool {
    a.params.len() > 0 || a.confirm_message is Some
}

/// What the details screen does with what the action list `l` gave.
pub open spec fn after_list(d: DetailState, r: ActionListResult, store_has: bool, d2: DetailState, a: DetailAction) -> bool {
    match r {
        ActionListResult::Nothing => a is Nothing && d2.overlay is ActionList,
        ActionListResult::Dismiss => a is Nothing && d2.overlay is Nothing,
        ActionListResult::Selected(action) => if needs_form(action@) {
            if store_has {
                &&& a matches DetailAction::FetchOptions(id) && id@ == d.connection_id@
                &&& d2.overlay matches Overlay::ParamForm(f) && f.action == action && f.focused == 0 && !f.confirm_shown
                    && !f.confirmed && f.fields@.len() == action.params@.len()
            } else {
                a is Nothing && d2.overlay is ActionList
            }
        } else {
            &&& d2.overlay is Nothing
            &&& a matches DetailAction::RunRemoteAction { conn_id, command }
                && conn_id@ == d.connection_id@ && command@ == fill_template(action@.command_template, Seq::empty())
        },
    }
}

/// What the details screen does with what the parameter form gave.
pub open spec fn after_form(d: DetailState, r: ParamFormResult, d2: DetailState, a: DetailAction) -> bool {
    match r {
        ParamFormResult::Nothing => a is Nothing && d2.overlay is ParamForm,
        ParamFormResult::Cancel => a is Nothing && (d2.overlay matches Overlay::ActionList(l)
            && l.search.value@.len() == 0 && crate::ui::quick_actions::list_rebuilt(l)),
        ParamFormResult::Execute(cmd) => d2.overlay is Nothing
            && (a matches DetailAction::RunRemoteAction { conn_id, command } && conn_id@ == d.connection_id@ && command@ == cmd@),
    }
}

/// What a key press does to the details screen `d`, giving `d2` and `a`.
pub open spec fn detail_key_spec(d: DetailState, key: Key, store: Seq<crate::model::connection::ConnectionView>, d2: DetailState, a: DetailAction) -> bool {
    let id = d.connection_id@;
    let store_has = index_of_id(store, id) < store.len();
    &&& d2.connection_id == d.connection_id
    &&& match d.overlay {
        Overlay::ActionList(l) => d2.confirm_delete == d.confirm_delete && exists|l2: ActionListState, r: ActionListResult|
            list_key_spec(l, key, l2, r) && after_list(d, r, store_has, d2, a)
                && (d2.overlay is ActionList ==> d2.overlay == Overlay::ActionList(l2)),
        Overlay::ParamForm(f) => d2.confirm_delete == d.confirm_delete && exists|f2: ParamFormState, r: ParamFormResult|
            form_key_spec(f, key, f2, r) && after_form(d, r, d2, a)
                && (d2.overlay is ParamForm ==> d2.overlay == Overlay::ParamForm(f2)),
        Overlay::Nothing => if d.confirm_delete {
            if key.code == KeyCode::Char('y') {
                (a matches DetailAction::Delete(x) && x@ == id) && d2.confirm_delete && d2.overlay is Nothing
            } else {
                a is Nothing && !d2.confirm_delete && d2.overlay is Nothing
            }
        } else {
            &&& (key.code != KeyCode::Char('d') ==> !d2.confirm_delete)
            &&& (key.code != KeyCode::Char('a') ==> d2.overlay is Nothing)
            &&& match key.code {
                KeyCode::Esc => a is Back,
                KeyCode::Enter => a matches DetailAction::Connect(x) && x@ == id,
                KeyCode::Char('e') => a matches DetailAction::Edit(x) && x@ == id,
                KeyCode::Char('d') => a is Nothing && d2.confirm_delete && d2.overlay is Nothing,
                KeyCode::Char('K') => a matches DetailAction::SetupKeyAuth(x) && x@ == id,
                KeyCode::Char('t') => a matches DetailAction::Transfer(x) && x@ == id,
                KeyCode::Char('a') => a is Nothing && !d2.confirm_delete && (d2.overlay matches Overlay::ActionList(l)
                    && l.search.value@.len() == 0 && crate::ui::quick_actions::list_rebuilt(l)),
                _ => a is Nothing,
            }
        },
    }
}

impl DetailState {
    /// The details of connection `id`, with nothing on top.
    pub fn new(id: String) -> (d: DetailState)
        ensures
            d.connection_id == id,
            !d.confirm_delete,
            d.overlay is Nothing,
    {
        DetailState { connection_id: id, confirm_delete: false, overlay: Overlay::Nothing }
    }

    /// The parameter form on top, if one is shown.
    pub fn param_form(&self) -> (r: Option<&ParamFormState>)
        ensures
            match self.overlay {
                Overlay::ParamForm(f) => r == Some(&f),
                _ => r is None,
            },
    {
        match &self.overlay {
            Overlay::ParamForm(f) => Some(f),
            _ => None,
        }
    }

    /// Hands options listed for field `index` to the form on top, if any.
    pub fn deliver_options(&mut self, index: usize, options: Vec<String>)
        requires
            detail_ok(*old(self)),
        ensures
            detail_ok(*final(self)),
            final(self).connection_id == old(self).connection_id,
            final(self).confirm_delete == old(self).confirm_delete,
            match old(self).overlay {
                Overlay::ParamForm(f) => final(self).overlay matches Overlay::ParamForm(f2)
                    && options_delivered(f, index, options@, f2),
                _ => final(self).overlay == old(self).overlay,
            },
    {
        let mut overlay = Overlay::Nothing;
        std::mem::swap(&mut overlay, &mut self.overlay);
        match overlay {
            Overlay::ParamForm(mut f) => {
                f.deliver_options(index, options);
                self.overlay = Overlay::ParamForm(f);
            },
            other => {
                self.overlay = other;
            },
        }
    }

    /// What the details screen does with what the action list gave.
    fn take_list_result(&mut self, r: ActionListResult, store: &ConnectionStore) -> (a: DetailAction)
        requires
            old(self).overlay is ActionList,
        ensures
            after_list(*old(self), r, index_of_id(store@, old(self).connection_id@) < store@.len(), *final(self), a),
            final(self).connection_id == old(self).connection_id,
            final(self).confirm_delete == old(self).confirm_delete,
            final(self).overlay is ActionList ==> final(self).overlay == old(self).overlay,
            detail_ok(*final(self)),
    {
        match r {
            ActionListResult::Nothing => DetailAction::Nothing,
            ActionListResult::Dismiss => {
                self.overlay = Overlay::Nothing;
                DetailAction::Nothing
            },
            ActionListResult::Selected(action) => {
                if action.has_params() || action.confirm_message.is_some() {
                    match store.find_by_id(self.connection_id.as_str()) {
                        Some(_) => {
                            self.overlay = Overlay::ParamForm(ParamFormState::new(action));
                            DetailAction::FetchOptions(owned(self.connection_id.as_str()))
                        },
                        None => DetailAction::Nothing,
                    }
                } else {
                    self.overlay = Overlay::Nothing;
                    let no_values: Vec<(String, String)> = Vec::new();
                    let command = action.build_command(no_values.as_slice());
                    assert(crate::text::pair_views(no_values@) =~= Seq::empty());
                    DetailAction::RunRemoteAction { conn_id: owned(self.connection_id.as_str()), command }
                }
            },
        }
    }

    /// What the details screen does with what the parameter form gave.
    fn take_form_result(&mut self, r: ParamFormResult) -> (a: DetailAction)
        requires
            old(self).overlay is ParamForm,
            detail_ok(*old(self)),
        ensures
            after_form(*old(self), r, *final(self), a),
            final(self).connection_id == old(self).connection_id,
            final(self).confirm_delete == old(self).confirm_delete,
            final(self).overlay is ParamForm ==> final(self).overlay == old(self).overlay,
            detail_ok(*final(self)),
    {
        match r {
            ParamFormResult::Nothing => DetailAction::Nothing,
            ParamFormResult::Cancel => {
                self.overlay = Overlay::ActionList(ActionListState::new());
                DetailAction::Nothing
            },
            ParamFormResult::Execute(command) => {
                self.overlay = Overlay::Nothing;
                DetailAction::RunRemoteAction { conn_id: owned(self.connection_id.as_str()), command }
            },
        }
    }

    /// A key press: a popup on top takes it; then the delete confirmation
    /// takes `y` (delete) or any other key (keep); otherwise `Esc` goes
    /// back, `Enter` connects, `e` edits, `d` asks to delete, `K` sets up
    /// key authentication, `t` opens the transfer screen and `a` the
    /// quick actions.
    pub fn handle_key(&mut self, key: Key, store: &ConnectionStore) -> (a: DetailAction)
        requires
            detail_ok(*old(self)),
        ensures
            detail_ok(*final(self)),
            detail_key_spec(*old(self), key, store@, *final(self), a),
    {
        let mut overlay = Overlay::Nothing;
        std::mem::swap(&mut overlay, &mut self.overlay);
        match overlay {
            Overlay::ActionList(mut l) => {
                let r = l.handle_key(key);
                let ghost l2 = l;
                let ghost gr = r;
                self.overlay = Overlay::ActionList(l);
                let ghost mid = *self;
                let a = self.take_list_result(r, store);
                assert(after_list(mid, gr, index_of_id(store@, self.connection_id@) < store@.len(), *self, a));
                assert(list_key_spec(old(self).overlay->ActionList_0, key, l2, gr));
                return a;
            },
            Overlay::ParamForm(mut f) => {
                let r = f.handle_key(key);
                let ghost f2 = f;
                let ghost gr = r;
                self.overlay = Overlay::ParamForm(f);
                let a = self.take_form_result(r);
                assert(form_key_spec(old(self).overlay->ParamForm_0, key, f2, gr));
                return a;
            },
            Overlay::Nothing => {},
        }
        if self.confirm_delete {
            return match key.code {
                KeyCode::Char('y') => DetailAction::Delete(owned(self.connection_id.as_str())),
                _ => {
                    self.confirm_delete = false;
                    DetailAction::Nothing
                },
            };
        }
        match key.code {
            KeyCode::Esc => DetailAction::Back,
            KeyCode::Enter => DetailAction::Connect(owned(self.connection_id.as_str())),
            KeyCode::Char('e') => DetailAction::Edit(owned(self.connection_id.as_str())),
            KeyCode::Char('d') => {
                self.confirm_delete = true;
                DetailAction::Nothing
            },
            KeyCode::Char('K') => DetailAction::SetupKeyAuth(owned(self.connection_id.as_str())),
            KeyCode::Char('t') => DetailAction::Transfer(owned(self.connection_id.as_str())),
            KeyCode::Char('a') => {
                self.overlay = Overlay::ActionList(ActionListState::new());
                DetailAction::Nothing
            },
            _ => DetailAction::Nothing,
        }
    }
}

} // verus!
