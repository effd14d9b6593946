//! Adding a vault variable to a project and deleting a variable from one.
use vstd::prelude::*;
use crate::app::{
    effects_view, lemma_project_pos, overlay, project_pos, status_view, var_view, vars_view,
    AddVarPopup, App, Effect, EffectView, ProjectEntry, PushPurpose, StatusLevel, VarView,
    STATUS_TICKS,
};
use crate::filtering::add_var_suggestions_of;
use crate::model::{clone_opt, opt_view, strs_view, var_names, EnvVar};
use crate::rows::env_rows_exact;
use crate::text::{concat3, owned};
use crate::vault::{lookup, Entries};

verus! {

/// The variables with their patch values (vault value where the vault has
/// one), leaving out those named `name`.
pub open spec fn overlay_except(vars: Seq<EnvVar>, name: Seq<char>, vault: Entries) -> Seq<VarView>
    decreases vars.len(),
{
    if vars.len() == 0 {
        Seq::empty()
    } else {
        let rest = overlay_except(vars.drop_last(), name, vault);
        if vars.last().name@ != name {
            rest.push(overlay(vars.last(), vault))
        } else {
            rest
        }
    }
}

/// All variables with their patch values.
pub open spec fn overlay_all(vars: Seq<EnvVar>, vault: Entries) -> Seq<VarView> {
    vars.map_values(|v: EnvVar| overlay(v, vault))
}

/// The variables of `vars` not named `name`, unchanged.
pub open spec fn without_name(vars: Seq<VarView>, name: Seq<char>) -> Seq<VarView>
    decreases vars.len(),
{
    if vars.len() == 0 {
        Seq::empty()
    } else {
        let rest = without_name(vars.drop_last(), name);
        if vars.last().0 != name {
            rest.push(vars.last())
        } else {
            rest
        }
    }
}

/// The selection clamped the way the Env Vars page keeps it after a rebuild.
pub open spec fn clamped_selection(before: usize, len: nat) -> usize {
    if before >= len && len > 0 {
        (len - 1) as usize
    } else {
        before
    }
}

/// `s` holds the Env Vars rows rebuilt from its own projects, whitelist and
/// vault, with the selection `before` clamped.
pub open spec fn rows_rebuilt(before: usize, s: App) -> bool {
    &&& env_rows_exact(s.env_var_rows@, s.projects@, s.vault.entries_view())
    &&& s.env_var_selected == clamped_selection(before, s.env_var_rows@.len())
}

/// `s1`'s projects are `s0`'s, except that project `pos` has the variables
/// `vars`.
pub open spec fn project_vars_replaced(s0: Seq<ProjectEntry>, s1: Seq<ProjectEntry>, pos: int, vars: Seq<VarView>) -> bool {
    &&& s1.len() == s0.len()
    &&& 0 <= pos < s0.len()
    &&& forall|j: int| 0 <= j < s0.len() && j != pos ==> s1[j] == s0[j]
    &&& s1[pos] == (ProjectEntry { env_vars: s1[pos].env_vars, ..s0[pos] })
    &&& vars_view(s1[pos].env_vars@) == vars
}

pub open spec fn config_missing_text() -> Seq<char> {
    "Configure server URL and API key in Settings first"@
}

/// The state and effects after deleting the selected variable.
pub open spec fn post_delete_var(s0: App, s1: App, effects: Seq<EffectView>) -> bool {
        if s0.project_var_selected is None || s0.project_list_selected >= s0.projects@.len() {
            s1 == s0 && effects.len() == 0
        } else if !s0.config.configured() {
            s1 == (App { status_message: s1.status_message, ..s0 }) && effects.len() == 0
                && status_view(s1.status_message) == Some((config_missing_text(), StatusLevel::Error, STATUS_TICKS))
        } else {
            let var_idx = s0.project_var_selected->0;
            let p = s0.projects@[s0.project_list_selected as int];
            if var_idx >= p.env_vars@.len() {
                s1 == s0 && effects.len() == 0
            } else {
                let name = p.env_vars@[var_idx as int].name@;
                let pos = project_pos(s0.projects@, p.guid@);
                let new_len = without_name(vars_view(s0.projects@[pos].env_vars@), name).len();
                &&& s1 == (App {
                    projects: s1.projects,
                    project_var_selected: s1.project_var_selected,
                    env_var_rows: s1.env_var_rows,
                    env_var_selected: s1.env_var_selected,
                    status_message: s1.status_message,
                    ..s0
                })
                &&& project_vars_replaced(s0.projects@, s1.projects@, pos, without_name(vars_view(s0.projects@[pos].env_vars@), name))
                &&& s1.project_var_selected == if new_len == 0 {
                    None
                } else if var_idx < new_len - 1 {
                    Some(var_idx)
                } else {
                    Some((new_len - 1) as usize)
                }
                &&& rows_rebuilt(s0.env_var_selected, s1)
                &&& effects == seq![EffectView::PushEnvVars {
                    server_url: s0.config.server_url@,
                    api_key: s0.config.api_key@,
                    guid: p.guid@,
                    vars: overlay_except(p.env_vars@, name, s0.vault.entries_view()),
                    purpose: PushPurpose::Patch,
                }]
                &&& status_view(s1.status_message) == Some((
                    "Deleting "@ + name + " from project…"@,
                    StatusLevel::Info,
                    STATUS_TICKS,
                ))
            }
        }
}

/// The state and effects after committing the add-var popup.
pub open spec fn post_commit_add_var(s0: App, s1: App, effects: Seq<EffectView>) -> bool {
        let sug = add_var_suggestions_of(s0);
        if s0.add_var_popup is None || s0.add_var_popup->0.selected >= sug.len() || lookup(
            s0.vault.entries_view(),
            sug[s0.add_var_popup->0.selected as int],
        ) is None {
            s1 == s0 && effects.len() == 0
        } else {
            let pp = s0.add_var_popup->0;
            let key = sug[pp.selected as int];
            let val = lookup(s0.vault.entries_view(), key)->0;
            let pos = project_pos(s0.projects@, pp.guid@);
            if pos < 0 {
                s1 == (App { add_var_popup: None, ..s0 }) && effects.len() == 0
            } else {
                let vars = s0.projects@[pos].env_vars@;
                &&& project_vars_replaced(s0.projects@, s1.projects@, pos, vars_view(vars).push((key, None)))
                &&& s1.add_var_popup is None
                &&& rows_rebuilt(s0.env_var_selected, s1)
                &&& if !s0.config.configured() {
                    &&& s1 == (App {
                        projects: s1.projects,
                        add_var_popup: s1.add_var_popup,
                        env_var_rows: s1.env_var_rows,
                        env_var_selected: s1.env_var_selected,
                        status_message: s1.status_message,
                        ..s0
                    })
                    &&& effects.len() == 0
                    &&& status_view(s1.status_message) == Some((config_missing_text(), StatusLevel::Error, STATUS_TICKS))
                } else {
                    &&& s1 == (App {
                        projects: s1.projects,
                        add_var_popup: s1.add_var_popup,
                        env_var_rows: s1.env_var_rows,
                        env_var_selected: s1.env_var_selected,
                        status_message: s1.status_message,
                        ..s0
                    })
                    &&& effects == seq![EffectView::PushEnvVars {
                        server_url: s0.config.server_url@,
                        api_key: s0.config.api_key@,
                        guid: pp.guid@,
                        vars: overlay_all(vars, s0.vault.entries_view()).push((key, Some(val))),
                        purpose: PushPurpose::Patch,
                    }]
                    &&& status_view(s1.status_message) == Some((
                        "Adding "@ + key + " to project…"@,
                        StatusLevel::Info,
                        STATUS_TICKS,
                    ))
                }
            }
        }
}

/// The state after opening the add-var popup.
pub open spec fn post_trigger_add_var(s0: App, s1: App) -> bool {
    if s0.project_list_selected >= s0.projects@.len() {
        s1 == s0
    } else {
        &&& s1 == (App { add_var_popup: s1.add_var_popup, ..s0 })
        &&& s1.add_var_popup matches Some(pp)
        &&& pp.guid@ == s0.projects@[s0.project_list_selected as int].guid@
        &&& pp.query@.len() == 0
        &&& pp.selected == 0
    }
}

impl App {
    /// Replaces the variables of project `pos`.
    pub fn replace_project_vars(&mut self, pos: usize, vars: Vec<EnvVar>)
        requires
            pos < old(self).projects@.len(),
        ensures
            *final(self) == (App { projects: final(self).projects, ..*old(self) }),
            project_vars_replaced(old(self).projects@, final(self).projects@, pos as int, vars_view(vars@)),
    {
        let ghost before = self.projects@;
        let mut p = self.projects.remove(pos);
        p.env_vars = vars;
        self.projects.insert(pos, p);
        assert forall|j: int| 0 <= j < before.len() && j != pos implies self.projects@[j] == before[j] by {
            if j > pos {
                assert(self.projects@[j] == before.remove(pos as int)[j - 1]);
            }
        }
    }

    /// Deletes the selected variable from the selected project: the project
    /// is patched with its other variables (vault values applied where the
    /// vault has them) and the local list is updated at once.
    pub fn trigger_delete_var(&mut self) -> (effects: Vec<Effect>)
        ensures
            post_delete_var(*old(self), *final(self), effects_view(effects@)),
    {
        let var_idx = match self.project_var_selected {
            Some(v) => v,
            None => return Vec::new(),
        };
        if self.project_list_selected >= self.projects.len() {
            return Vec::new();
        }
        if !self.config.is_configured() {
            self.set_status(owned("Configure server URL and API key in Settings first"), StatusLevel::Error);
            return Vec::new();
        }
        let sel = self.project_list_selected;
        if var_idx >= self.projects[sel].env_vars.len() {
            return Vec::new();
        }
        let ghost s0 = *self;
        let var_name = self.projects[sel].env_vars[var_idx].name.clone();
        let guid = self.projects[sel].guid.clone();
        // the patch: every other variable, with its vault value where there is one
        let mut payload: Vec<EnvVar> = Vec::new();
        let mut i: usize = 0;
        while i < self.projects[sel].env_vars.len()
            invariant
                *self == s0,
                sel < self.projects@.len(),
                i <= self.projects@[sel as int].env_vars@.len(),
                vars_view(payload@) == overlay_except(
                    self.projects@[sel as int].env_vars@.take(i as int),
                    var_name@,
                    self.vault.entries_view(),
                ),
            decreases self.projects@[sel as int].env_vars@.len() - i,
        {
            let v = &self.projects[sel].env_vars[i];
            assert(self.projects@[sel as int].env_vars@.take(i + 1).drop_last() == self.projects@[sel as int].env_vars@.take(i as int));
            if v.name != var_name {
                let value = match self.vault.get(v.name.as_str()) {
                    Some(x) => Some(owned(x)),
                    None => clone_opt(&v.value),
                };
                let e = EnvVar { name: v.name.clone(), value };
                let ghost prev = payload@;
                payload.push(e);
                assert(vars_view(payload@) =~= vars_view(prev).push(var_view(e)));
            }
            i += 1;
        }
        assert(self.projects@[sel as int].env_vars@.take(self.projects@[sel as int].env_vars@.len() as int) == self.projects@[sel as int].env_vars@);
        // the local list, updated at once (first project with this GUID)
        proof {
            lemma_project_pos(self.projects@, guid@);
        }
        match self.find_project(&guid) {
            Some(pos) => {
                let mut kept: Vec<EnvVar> = Vec::new();
                let mut j: usize = 0;
                while j < self.projects[pos].env_vars.len()
                    invariant
                        *self == s0,
                        pos < self.projects@.len(),
                        j <= self.projects@[pos as int].env_vars@.len(),
                        vars_view(kept@) == without_name(
                            vars_view(self.projects@[pos as int].env_vars@.take(j as int)),
                            var_name@,
                        ),
                    decreases self.projects@[pos as int].env_vars@.len() - j,
                {
                    let v = &self.projects[pos].env_vars[j];
                    let ghost vs = self.projects@[pos as int].env_vars@;
                    assert(vars_view(vs.take(j + 1)).drop_last() =~= vars_view(vs.take(j as int)));
                    assert(vars_view(vs.take(j + 1)).last() == var_view(vs[j as int]));
                    if v.name != var_name {
                        let e = v.duplicate();
                        let ghost prev = kept@;
                        kept.push(e);
                        assert(vars_view(kept@) =~= vars_view(prev).push(var_view(e)));
                    }
                    j += 1;
                }
                assert(self.projects@[pos as int].env_vars@.take(self.projects@[pos as int].env_vars@.len() as int) == self.projects@[pos as int].env_vars@);
                let len = kept.len();
                self.replace_project_vars(pos, kept);
                self.project_var_selected = if len == 0 {
                    None
                } else if var_idx < len - 1 {
                    Some(var_idx)
                } else {
                    Some(len - 1)
                };
            },
            None => {
                assert(false);
            },
        }
        self.rebuild_env_var_rows();
        let mut effects: Vec<Effect> = Vec::new();
        let e = Effect::PushEnvVars {
            server_url: self.config.server_url.clone(),
            api_key: self.config.api_key.clone(),
            guid,
            vars: payload,
            purpose: PushPurpose::Patch,
        };
        effects.push(e);
        let msg = concat3("Deleting ", var_name.as_str(), " from project…");
        self.set_status(msg, StatusLevel::Info);
        assert(effects_view(effects@) =~= seq![crate::app::effect_view(e)]);
        effects
    }

    /// Opens the add-var popup for the selected project.
    pub fn trigger_add_var(&mut self)
        ensures
            post_trigger_add_var(*old(self), *final(self)),
    {
        if self.project_list_selected < self.projects.len() {
            let guid = self.projects[self.project_list_selected].guid.clone();
            self.add_var_popup = Some(AddVarPopup { guid, query: String::new(), selected: 0 });
        }
    }

    /// Adds the selected suggestion to the popup's project: the project is
    /// patched with its variables (vault values applied) plus the new one,
    /// and the local list gains the name at once.
    pub fn commit_add_var(&mut self) -> (effects: Vec<Effect>)
        ensures
            post_commit_add_var(*old(self), *final(self), effects_view(effects@)),
    {
        let suggestions = self.add_var_suggestions();
        let ghost s0 = *self;
        let (guid, selected_key, vault_value) = match &self.add_var_popup {
            Some(popup) => {
                if popup.selected >= suggestions.len() {
                    return Vec::new();
                }
                let key = suggestions[popup.selected].clone();
                assert(key@ == strs_view(suggestions@)[popup.selected as int]);
                let val = match self.vault.get(key.as_str()) {
                    Some(v) => owned(v),
                    None => return Vec::new(),
                };
                (popup.guid.clone(), key, val)
            },
            None => return Vec::new(),
        };
        self.add_var_popup = None;
        let pos = match self.find_project(&guid) {
            Some(pos) => pos,
            None => return Vec::new(),
        };
        // the patch: every variable with its vault value where there is one, then the new one
        let mut payload: Vec<EnvVar> = Vec::new();
        let mut i: usize = 0;
        while i < self.projects[pos].env_vars.len()
            invariant
                pos < self.projects@.len(),
                self.projects == s0.projects,
                self.vault == s0.vault,
                i <= self.projects@[pos as int].env_vars@.len(),
                vars_view(payload@) == overlay_all(
                    self.projects@[pos as int].env_vars@.take(i as int),
                    self.vault.entries_view(),
                ),
            decreases self.projects@[pos as int].env_vars@.len() - i,
        {
            let v = &self.projects[pos].env_vars[i];
            let value = match self.vault.get(v.name.as_str()) {
                Some(x) => Some(owned(x)),
                None => clone_opt(&v.value),
            };
            let e = EnvVar { name: v.name.clone(), value };
            let ghost prev = payload@;
            payload.push(e);
            assert(vars_view(payload@) =~= vars_view(prev).push(var_view(e)));
            i += 1;
            assert(overlay_all(self.projects@[pos as int].env_vars@.take(i as int), self.vault.entries_view())
                =~= overlay_all(self.projects@[pos as int].env_vars@.take(i - 1), self.vault.entries_view()).push(
                overlay(self.projects@[pos as int].env_vars@[i - 1], self.vault.entries_view())));
        }
        assert(self.projects@[pos as int].env_vars@.take(self.projects@[pos as int].env_vars@.len() as int) == self.projects@[pos as int].env_vars@);
        let added = EnvVar { name: selected_key.clone(), value: Some(vault_value) };
        let ghost before_push = payload@;
        payload.push(added);
        assert(vars_view(payload@) =~= vars_view(before_push).push(var_view(added)));
        // the local list gains the name at once
        let mut vars: Vec<EnvVar> = crate::sync::clone_vars(&self.projects[pos].env_vars);
        let ghost vb = vars@;
        let local = EnvVar { name: selected_key.clone(), value: None };
        vars.push(local);
        assert(vars_view(vars@) =~= vars_view(vb).push(var_view(local)));
        self.replace_project_vars(pos, vars);
        self.rebuild_env_var_rows();
        if !self.config.is_configured() {
            self.set_status(owned("Configure server URL and API key in Settings first"), StatusLevel::Error);
            return Vec::new();
        }
        let mut effects: Vec<Effect> = Vec::new();
        let e = Effect::PushEnvVars {
            server_url: self.config.server_url.clone(),
            api_key: self.config.api_key.clone(),
            guid,
            vars: payload,
            purpose: PushPurpose::Patch,
        };
        effects.push(e);
        let msg = concat3("Adding ", selected_key.as_str(), " to project…");
        self.set_status(msg, StatusLevel::Info);
        assert(effects_view(effects@) =~= seq![crate::app::effect_view(e)]);
        effects
    }
}

proof fn lemma_overlay_except_names(vars: Seq<EnvVar>, name: Seq<char>, vault: Entries)
    ensures
        overlay_except(vars, name, vault).map_values(|v: VarView| v.0) == var_names(vars).filter(
            |n: Seq<char>| n != name,
        ),
    decreases vars.len(),
{
    reveal_with_fuel(Seq::filter, 1);
    if vars.len() == 0 {
        assert(overlay_except(vars, name, vault).map_values(|v: VarView| v.0) =~= Seq::<Seq<char>>::empty());
    } else {
        let d = vars.drop_last();
        lemma_overlay_except_names(d, name, vault);
        assert(var_names(vars).drop_last() =~= var_names(d));
        assert(var_names(vars).last() == vars.last().name@);
        let rest = overlay_except(d, name, vault);
        if vars.last().name@ != name {
            assert(rest.push(overlay(vars.last(), vault)).map_values(|v: VarView| v.0) =~= rest.map_values(
                |v: VarView| v.0,
            ).push(vars.last().name@));
        }
    }
}

proof fn lemma_overlay_except_kept(vars: Seq<EnvVar>, name: Seq<char>, vault: Entries)
    ensures
        overlay_except(vars, name, vault) == vars.filter(|v: EnvVar| v.name@ != name).map_values(
            |v: EnvVar| overlay(v, vault),
        ),
    decreases vars.len(),
{
    reveal_with_fuel(Seq::filter, 1);
    if vars.len() > 0 {
        let d = vars.drop_last();
        lemma_overlay_except_kept(d, name, vault);
        let f = d.filter(|v: EnvVar| v.name@ != name);
        if vars.last().name@ != name {
            assert(f.push(vars.last()).map_values(|v: EnvVar| overlay(v, vault)) =~= f.map_values(
                |v: EnvVar| overlay(v, vault),
            ).push(overlay(vars.last(), vault)));
        }
    } else {
        assert(vars.filter(|v: EnvVar| v.name@ != name).map_values(|v: EnvVar| overlay(v, vault)) =~= Seq::<VarView>::empty());
    }
}

/// Deleting a variable patches the project with every other variable it
/// has: the names pushed are exactly the project's variable names without
/// the deleted one, in the project's order; each is sent with its vault
/// value where the vault has one and its own value otherwise; and the patch
/// goes to the selected project.
pub proof fn law_delete_sends_all_others(s0: App, s1: App, effects: Seq<EffectView>)
    requires
        post_delete_var(s0, s1, effects),
        s0.project_var_selected is Some,
        s0.project_list_selected < s0.projects@.len(),
        s0.config.configured(),
        s0.project_var_selected->0 < s0.projects@[s0.project_list_selected as int].env_vars@.len(),
    ensures
        ({
            let p = s0.projects@[s0.project_list_selected as int];
            let name = p.env_vars@[s0.project_var_selected->0 as int].name@;
            &&& effects.len() == 1
            &&& effects[0] matches EffectView::PushEnvVars { guid, vars, purpose, .. }
            &&& guid == p.guid@
            &&& purpose == PushPurpose::Patch
            &&& vars.map_values(|v: VarView| v.0) == var_names(p.env_vars@).filter(|n: Seq<char>| n != name)
            &&& vars == p.env_vars@.filter(|v: EnvVar| v.name@ != name).map_values(
                |v: EnvVar| overlay(v, s0.vault.entries_view()),
            )
        }),
{
    let p = s0.projects@[s0.project_list_selected as int];
    let name = p.env_vars@[s0.project_var_selected->0 as int].name@;
    lemma_overlay_except_names(p.env_vars@, name, s0.vault.entries_view());
    lemma_overlay_except_kept(p.env_vars@, name, s0.vault.entries_view());
}

} // verus!
