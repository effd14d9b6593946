//! Reactions to the results of background requests, and the requests that
//! start them.
use vstd::prelude::*;
use crate::app::{
    display_name, effects_view, lemma_project_pos, project_pos, status_view, vars_view, App, AppEvent, Effect,
    EffectView, LoadState, ProjectEntry, StatusLevel, STATUS_TICKS,
};
use crate::clock::{hours_since_rfc3339, is_refresh_due, now_rfc3339, refresh_due, rfc3339_valid};
use crate::config::Config;
use crate::edits::rows_rebuilt;
use crate::model::{clone_opt, opt_view, ContentItem, EnvVar};
use crate::order::{as_ints, is_stable_order, lemma_stable_order_is_permutation, ranks_before, stable_order};
use crate::text::{
    chars_of, concat2, lemma_seq_lt_asymmetric, lemma_seq_lt_irreflexive, lowercase, owned, seq_lt,
    str_eq, strip_one_newline, to_lower, without_final_newline,
};
use crate::vault::{insert_entry, Vault};
use crate::sync::{merged_vars, sync_answer};

verus! {

/// The caller owns or edits the item; only such items are listed.
pub open spec fn role_allows(i: ContentItem) -> bool {
    match i.app_role {
        Some(r) => r@ == "owner"@ || r@ == "editor"@,
        None => false,
    }
}

/// The items the caller owns or edits, in the order given.
pub open spec fn kept_items(items: Seq<ContentItem>) -> Seq<ContentItem>
    decreases items.len(),
{
    if items.len() == 0 {
        Seq::empty()
    } else {
        let rest = kept_items(items.drop_last());
        if role_allows(items.last()) {
            rest.push(items.last())
        } else {
            rest
        }
    }
}

/// The key projects are listed by: the lower-cased display name.
pub open spec fn item_key(i: ContentItem) -> Seq<char> {
    lowercase(
        match i.title {
            Some(t) => t@,
            None => i.name@,
        },
    )
}

/// `p` is the freshly listed project for item `i`, its variables still loading.
pub open spec fn fresh_project(p: ProjectEntry, i: ContentItem) -> bool {
    &&& p.guid@ == i.guid@
    &&& p.name@ == i.name@
    &&& opt_view(p.title) == opt_view(i.title)
    &&& p.env_vars@.len() == 0
    &&& p.load_state is Loading
}

/// The listing keys of the kept items.
pub open spec fn kept_keys(items: Seq<ContentItem>) -> Seq<Seq<char>> {
    kept_items(items).map_values(|i: ContentItem| item_key(i))
}

/// `ps` lists the items the caller owns or edits, sorted stably by display
/// name ignoring case.
pub open spec fn listed_projects(items: Seq<ContentItem>, ps: Seq<ProjectEntry>) -> bool {
    let kept = kept_items(items);
    exists|perm: Seq<int>|
        #[trigger] is_stable_order(kept_keys(items), perm) && ps.len()
            == kept.len() && forall|j: int| 0 <= j < ps.len() ==> fresh_project(ps[j], kept[perm[j]])
}

/// The fetch effect for one item.
pub open spec fn fetch_vars_effect(cfg: Config, i: ContentItem) -> EffectView {
    EffectView::FetchEnvVars { server_url: cfg.server_url@, api_key: cfg.api_key@, guid: i.guid@ }
}

/// `pending - 1`, not below zero.
pub open spec fn one_less(n: usize) -> usize {
    if n > 0 {
        (n - 1) as usize
    } else {
        0
    }
}

/// The state after a project list arrives.
pub open spec fn post_projects_fetched(s0: App, s1: App, items: Seq<ContentItem>, stamp: Seq<char>, effects: Seq<EffectView>) -> bool {
    let kept = kept_items(items);
    &&& s1 == (App {
        projects: s1.projects,
        pending_fetches: s1.pending_fetches,
        load_state: s1.load_state,
        config: s1.config,
        ..s0
    })
    &&& listed_projects(items, s1.projects@)
    &&& s1.pending_fetches == kept.len()
    &&& (kept.len() == 0 ==> s1.load_state is Idle)
    &&& (kept.len() > 0 ==> s1.load_state == s0.load_state)
    &&& s1.config == (Config { last_refresh: s1.config.last_refresh, ..s0.config })
    &&& opt_view(s1.config.last_refresh) == Some(stamp)
    &&& effects == kept.map_values(|i: ContentItem| fetch_vars_effect(s0.config, i)).push(EffectView::SaveConfig)
}

/// The state after one project's variables arrive.
pub open spec fn post_vars_fetched(s0: App, s1: App, guid: Seq<char>, vars: Seq<EnvVar>) -> bool {
    let pos = project_pos(s0.projects@, guid);
    let pending = one_less(s0.pending_fetches);
    &&& s1 == (App {
        projects: s1.projects,
        pending_fetches: s1.pending_fetches,
        load_state: s1.load_state,
        status_message: s1.status_message,
        env_var_rows: s1.env_var_rows,
        env_var_selected: s1.env_var_selected,
        ..s0
    })
    &&& (pos < 0 ==> s1.projects == s0.projects)
    &&& (pos >= 0 ==> {
        &&& s1.projects@.len() == s0.projects@.len()
        &&& forall|j: int| 0 <= j < s0.projects@.len() && j != pos ==> s1.projects@[j] == s0.projects@[j]
        &&& s1.projects@[pos] == (ProjectEntry {
            env_vars: s1.projects@[pos].env_vars,
            load_state: s1.projects@[pos].load_state,
            ..s0.projects@[pos]
        })
        &&& vars_view(s1.projects@[pos].env_vars@) == vars_view(vars)
        &&& s1.projects@[pos].load_state is Idle
    })
    &&& s1.pending_fetches == pending
    &&& (pending == 0 ==> s1.load_state is Idle && status_view(s1.status_message) == Some(
        ("Projects loaded successfully"@, StatusLevel::Success, STATUS_TICKS),
    ))
    &&& (pending > 0 ==> s1.load_state == s0.load_state && s1.status_message == s0.status_message)
    &&& rows_rebuilt(s0.env_var_selected, s1)
}

/// The state after reading one project's variables failed.
pub open spec fn post_vars_failed(s0: App, s1: App, guid: Seq<char>, error: Seq<char>) -> bool {
    let pos = project_pos(s0.projects@, guid);
    let pending = one_less(s0.pending_fetches);
    &&& s1 == (App {
        projects: s1.projects,
        pending_fetches: s1.pending_fetches,
        load_state: s1.load_state,
        status_message: s1.status_message,
        ..s0
    })
    &&& (pos < 0 ==> s1.projects == s0.projects)
    &&& (pos >= 0 ==> {
        &&& s1.projects@.len() == s0.projects@.len()
        &&& forall|j: int| 0 <= j < s0.projects@.len() && j != pos ==> s1.projects@[j] == s0.projects@[j]
        &&& s1.projects@[pos] == (ProjectEntry { load_state: s1.projects@[pos].load_state, ..s0.projects@[pos] })
        &&& (s1.projects@[pos].load_state matches LoadState::Error(m) && m@ == error)
    })
    &&& s1.pending_fetches == pending
    &&& (pending == 0 ==> s1.load_state is Idle)
    &&& (pending > 0 ==> s1.load_state == s0.load_state)
    &&& status_view(s1.status_message) == Some(("Error loading env vars: "@ + error, StatusLevel::Error, STATUS_TICKS))
}

/// The state after the project list could not be read.
pub open spec fn post_fetch_failed(s0: App, s1: App, error: Seq<char>) -> bool {
    &&& s1 == (App {
        pending_fetches: s1.pending_fetches,
        load_state: s1.load_state,
        status_message: s1.status_message,
        ..s0
    })
    &&& (s1.load_state matches LoadState::Error(m) && m@ == error)
    &&& s1.pending_fetches == one_less(s0.pending_fetches)
    &&& status_view(s1.status_message) == Some(("Error: "@ + error, StatusLevel::Error, STATUS_TICKS))
}

/// The state after a push finished: only the status line changes.
pub open spec fn post_push_done(s0: App, s1: App, result: Result<(), String>, ok_text: Seq<char>, err_prefix: Seq<char>) -> bool {
    &&& s1 == (App { status_message: s1.status_message, ..s0 })
    &&& match result {
        Ok(_) => status_view(s1.status_message) == Some((ok_text, StatusLevel::Success, STATUS_TICKS)),
        Err(e) => status_view(s1.status_message) == Some((err_prefix + e@, StatusLevel::Error, STATUS_TICKS)),
    }
}

/// The state and effects after the result of a background request, with
/// `now` the time at which it is handled.
pub open spec fn post_app_event(s0: App, s1: App, event: AppEvent, now: Seq<char>, effects: Seq<EffectView>) -> bool {
    match event {
        AppEvent::ProjectsFetched(items) => post_projects_fetched(s0, s1, items@, now, effects),
        AppEvent::EnvVarsFetched { guid, vars } => post_vars_fetched(s0, s1, guid@, vars@) && effects.len() == 0,
        AppEvent::EnvVarsFetchError { guid, error } => post_vars_failed(s0, s1, guid@, error@) && effects.len() == 0,
        AppEvent::SyncVarsFetched { guid, vars } => s1 == s0 && effects
            == sync_answer(s0, guid@, merged_vars(
            vars@,
            s0.config.excluded_vars.list_of(guid@),
            s0.vault.entries_view(),
        )),
        AppEvent::SyncFetchFailed { guid, error } => post_push_done(s0, s1, Err(error), "Sync complete!"@, "Sync failed: "@) && effects.len() == 0,
        AppEvent::SyncComplete { _guid, result } => post_push_done(s0, s1, result, "Sync complete!"@, "Sync failed: "@) && effects.len() == 0,
        AppEvent::EnvVarPatched { _guid, result } => post_push_done(s0, s1, result, "Change applied to project"@, "Patch failed: "@) && effects.len() == 0,
        AppEvent::FetchError(e) => post_fetch_failed(s0, s1, e@) && effects.len() == 0,
    }
}

/// The state and effects after asking for the project list.
pub open spec fn post_trigger_fetch(s0: App, s1: App, effects: Seq<EffectView>) -> bool {
    if !s0.config.configured() {
        &&& s1 == (App { status_message: s1.status_message, ..s0 })
        &&& effects.len() == 0
        &&& status_view(s1.status_message) == Some((
            "Configure server URL and API key in Settings (Tab → ↓↓↓ → Enter)"@,
            StatusLevel::Error,
            STATUS_TICKS,
        ))
    } else {
        &&& s1 == (App { load_state: s1.load_state, ..s0 })
        &&& s1.load_state is Loading
        &&& effects == seq![EffectView::FetchProjects { server_url: s0.config.server_url@, api_key: s0.config.api_key@ }]
    }
}

impl App {
    /// Asks for the project list, or explains that the server is not configured.
    pub fn trigger_fetch(&mut self) -> (effects: Vec<Effect>)
        ensures
            post_trigger_fetch(*old(self), *final(self), effects_view(effects@)),
    {
        if !self.config.is_configured() {
            self.set_status(
                owned("Configure server URL and API key in Settings (Tab → ↓↓↓ → Enter)"),
                StatusLevel::Error,
            );
            return Vec::new();
        }
        self.load_state = LoadState::Loading;
        let mut effects: Vec<Effect> = Vec::new();
        let e = Effect::FetchProjects {
            server_url: self.config.server_url.clone(),
            api_key: self.config.api_key.clone(),
        };
        effects.push(e);
        assert(effects_view(effects@) =~= seq![crate::app::effect_view(e)]);
        effects
    }

    /// Refreshes the project list at startup when it was never refreshed,
    /// its time stamp is unreadable, or it is at least 24 hours old.
    pub fn check_auto_refresh(&mut self) -> (effects: Vec<Effect>)
        ensures
            !old(self).config.configured() ==> *final(self) == *old(self) && effects@.len() == 0,
            old(self).config.configured() && (old(self).config.last_refresh is None || !rfc3339_valid(
                old(self).config.last_refresh->0@,
            )) ==> *final(self) == (App { load_state: final(self).load_state, ..*old(self) })
                && final(self).load_state is Loading && effects_view(effects@) == seq![
                EffectView::FetchProjects {
                    server_url: old(self).config.server_url@,
                    api_key: old(self).config.api_key@,
                },
            ],
            old(self).config.configured() ==> (*final(self) == *old(self) && effects@.len() == 0)
                || (*final(self) == (App { load_state: final(self).load_state, ..*old(self) })
                && final(self).load_state is Loading && effects_view(effects@) == seq![
                EffectView::FetchProjects {
                    server_url: old(self).config.server_url@,
                    api_key: old(self).config.api_key@,
                },
            ]),
    {
        if !self.config.is_configured() {
            return Vec::new();
        }
        let hours = match &self.config.last_refresh {
            Some(ts) => hours_since_rfc3339(ts.as_str()),
            None => None,
        };
        self.refresh_if_due(hours)
    }

    /// The decision of `check_auto_refresh` for a known number of whole hours
    /// since the last refresh (None when the stamp is unreadable).
    pub fn refresh_if_due(&mut self, hours_since: Option<i64>) -> (effects: Vec<Effect>)
        requires
            old(self).config.configured(),
        ensures
            !refresh_due(opt_view(old(self).config.last_refresh), hours_since) ==> *final(self)
                == *old(self) && effects@.len() == 0,
            refresh_due(opt_view(old(self).config.last_refresh), hours_since) ==> *final(self) == (
            App { load_state: final(self).load_state, ..*old(self) }) && final(self).load_state is Loading
                && effects_view(effects@) == seq![
                EffectView::FetchProjects {
                    server_url: old(self).config.server_url@,
                    api_key: old(self).config.api_key@,
                },
            ],
    {
        if is_refresh_due(&self.config.last_refresh, hours_since) {
            self.trigger_fetch()
        } else {
            Vec::new()
        }
    }

    /// Lists the fetched content items the caller owns or edits, sorted by
    /// display name, asks for each one's variables, and records `stamp` as
    /// the time of this refresh.
    pub fn projects_fetched(&mut self, items: Vec<ContentItem>, stamp: String) -> (effects: Vec<Effect>)
        ensures
            post_projects_fetched(*old(self), *final(self), items@, stamp@, effects_view(effects@)),
    {
        let ghost s0 = *self;
        let owner = "owner";
        let editor = "editor";
        let mut kept: Vec<&ContentItem> = Vec::new();
        let mut i: usize = 0;
        while i < items.len()
            invariant
                i <= items@.len(),
                owner@ == "owner"@,
                editor@ == "editor"@,
                kept@.map_values(|x: &ContentItem| *x) == kept_items(items@.take(i as int)),
            decreases items@.len() - i,
        {
            let it = &items[i];
            assert(items@.take(i + 1).drop_last() == items@.take(i as int));
            assert(items@.take(i + 1).last() == *it);
            let allowed = match &it.app_role {
                Some(r) => str_eq(r.as_str(), owner) || str_eq(r.as_str(), editor),
                None => false,
            };
            if allowed {
                let ghost prev = kept@;
                kept.push(it);
                assert(kept@.map_values(|x: &ContentItem| *x) =~= prev.map_values(|x: &ContentItem| *x).push(*it));
            }
            i += 1;
        }
        assert(items@.take(items@.len() as int) == items@);
        let ghost kv = kept_items(items@);
        assert(kept@.map_values(|x: &ContentItem| *x) == kv);
        // fetch requests, in list order
        let mut effects: Vec<Effect> = Vec::new();
        let mut t: usize = 0;
        while t < kept.len()
            invariant
                t <= kept@.len(),
                kept@.map_values(|x: &ContentItem| *x) == kv,
                self.config == s0.config,
                effects_view(effects@) == kv.take(t as int).map_values(|x: ContentItem| fetch_vars_effect(s0.config, x)),
            decreases kept@.len() - t,
        {
            assert(kv[t as int] == *kept@[t as int]);
            let e = Effect::FetchEnvVars {
                server_url: self.config.server_url.clone(),
                api_key: self.config.api_key.clone(),
                guid: kept[t].guid.clone(),
            };
            let ghost prev = effects@;
            effects.push(e);
            assert(effects_view(effects@) =~= effects_view(prev).push(fetch_vars_effect(s0.config, kv[t as int])));
            t += 1;
            assert(kv.take(t as int) =~= kv.take(t - 1).push(kv[t - 1]));
        }
        assert(kv.take(kv.len() as int) == kv);
        // sort keys
        let mut keys: Vec<Vec<char>> = Vec::new();
        let mut k: usize = 0;
        while k < kept.len()
            invariant
                k <= kept@.len(),
                kept@.map_values(|x: &ContentItem| *x) == kv,
                keys@.len() == k,
                forall|j: int| 0 <= j < k ==> (#[trigger] keys@[j])@ == item_key(kv[j]),
            decreases kept@.len() - k,
        {
            assert(kv[k as int] == *kept@[k as int]);
            let it = kept[k];
            let shown = match &it.title {
                Some(tt) => tt.as_str(),
                None => it.name.as_str(),
            };
            let lk = to_lower(shown);
            keys.push(chars_of(lk.as_str()));
            k += 1;
        }
        let perm = stable_order(&keys);
        let ghost lk = kv.map_values(|x: ContentItem| item_key(x));
        assert(keys@.map_values(|x: Vec<char>| x@) =~= lk);
        let ghost pi = as_ints(perm@);
        let mut projects: Vec<ProjectEntry> = Vec::new();
        let mut u: usize = 0;
        while u < perm.len()
            invariant
                u <= perm@.len(),
                perm@.len() == kv.len(),
                kept@.map_values(|x: &ContentItem| *x) == kv,
                pi == as_ints(perm@),
                is_stable_order(lk, pi),
                projects@.len() == u,
                forall|j: int| 0 <= j < u ==> fresh_project(#[trigger] projects@[j], kv[pi[j]]),
            decreases perm@.len() - u,
        {
            let j = perm[u];
            assert(pi[u as int] == j as int);
            assert(kv[j as int] == *kept@[j as int]);
            let it = kept[j];
            projects.push(ProjectEntry {
                guid: it.guid.clone(),
                name: it.name.clone(),
                title: clone_opt(&it.title),
                env_vars: Vec::new(),
                load_state: LoadState::Loading,
            });
            u += 1;
        }
        let n = kept.len();
        self.projects = projects;
        self.pending_fetches = n;
        if n == 0 {
            self.load_state = LoadState::Idle;
        }
        self.config.last_refresh = Some(stamp);
        let ghost before_save = effects@;
        effects.push(Effect::SaveConfig);
        assert(effects_view(effects@) =~= effects_view(before_save).push(EffectView::SaveConfig));
        assert(listed_projects(items@, self.projects@)) by {
            assert(kept_keys(items@) == lk);
            assert(is_stable_order(kept_keys(items@), pi));
        }
        effects
    }

    /// Takes a project's fetched variables.
    pub fn env_vars_fetched(&mut self, guid: String, vars: Vec<EnvVar>)
        ensures
            post_vars_fetched(*old(self), *final(self), guid@, vars@),
    {
        let ghost s0 = *self;
        let ghost vv = vars@;
        proof {
            lemma_project_pos(self.projects@, guid@);
        }
        match self.find_project(&guid) {
            Some(pos) => {
                let ghost before = self.projects@;
                let mut p = self.projects.remove(pos);
                p.env_vars = vars;
                p.load_state = LoadState::Idle;
                self.projects.insert(pos, p);
                assert forall|j: int| 0 <= j < before.len() && j != pos implies self.projects@[j] == before[j] by {
                    if j > pos {
                        assert(self.projects@[j] == before.remove(pos as int)[j - 1]);
                    }
                }
            },
            None => {},
        }
        if self.pending_fetches > 0 {
            self.pending_fetches -= 1;
        }
        if self.pending_fetches == 0 {
            self.load_state = LoadState::Idle;
            self.set_status(owned("Projects loaded successfully"), StatusLevel::Success);
        }
        self.rebuild_env_var_rows();
    }

    /// Records that reading a project's variables failed.
    pub fn env_vars_fetch_failed(&mut self, guid: String, error: String)
        ensures
            post_vars_failed(*old(self), *final(self), guid@, error@),
    {
        proof {
            lemma_project_pos(self.projects@, guid@);
        }
        match self.find_project(&guid) {
            Some(pos) => {
                let ghost before = self.projects@;
                let mut p = self.projects.remove(pos);
                p.load_state = LoadState::Error(error.clone());
                self.projects.insert(pos, p);
                assert forall|j: int| 0 <= j < before.len() && j != pos implies self.projects@[j] == before[j] by {
                    if j > pos {
                        assert(self.projects@[j] == before.remove(pos as int)[j - 1]);
                    }
                }
            },
            None => {},
        }
        if self.pending_fetches > 0 {
            self.pending_fetches -= 1;
        }
        if self.pending_fetches == 0 {
            self.load_state = LoadState::Idle;
        }
        self.set_status(concat2("Error loading env vars: ", error.as_str()), StatusLevel::Error);
    }

    /// Records that the project list could not be read.
    pub fn fetch_failed(&mut self, error: String)
        ensures
            post_fetch_failed(*old(self), *final(self), error@),
    {
        let msg = concat2("Error: ", error.as_str());
        self.load_state = LoadState::Error(error);
        if self.pending_fetches > 0 {
            self.pending_fetches -= 1;
        }
        self.set_status(msg, StatusLevel::Error);
    }

    /// Handles the result of a background request, at the current time.
    pub fn handle_app_event(&mut self, event: AppEvent) -> (effects: Vec<Effect>)
        ensures
            exists|now: Seq<char>| post_app_event(*old(self), *final(self), event, now, effects_view(effects@)),
    {
        let now = now_rfc3339();
        self.handle_app_event_at(event, now)
    }

    /// Handles the result of a background request, with `now` the time of
    /// handling (recorded when a project list arrives).
    pub fn handle_app_event_at(&mut self, event: AppEvent, now: String) -> (effects: Vec<Effect>)
        ensures
            post_app_event(*old(self), *final(self), event, now@, effects_view(effects@)),
    {
        match event {
            AppEvent::ProjectsFetched(items) => self.projects_fetched(items, now),
            AppEvent::EnvVarsFetched { guid, vars } => {
                self.env_vars_fetched(guid, vars);
                Vec::new()
            },
            AppEvent::EnvVarsFetchError { guid, error } => {
                self.env_vars_fetch_failed(guid, error);
                Vec::new()
            },
            AppEvent::SyncVarsFetched { guid, vars } => self.sync_vars_fetched(guid, vars),
            AppEvent::SyncFetchFailed { guid, error } => {
                self.set_status(concat2("Sync failed: ", error.as_str()), StatusLevel::Error);
                Vec::new()
            },
            AppEvent::SyncComplete { _guid, result } => {
                match result {
                    Ok(()) => self.set_status(owned("Sync complete!"), StatusLevel::Success),
                    Err(e) => self.set_status(concat2("Sync failed: ", e.as_str()), StatusLevel::Error),
                }
                Vec::new()
            },
            AppEvent::EnvVarPatched { _guid, result } => {
                match result {
                    Ok(()) => self.set_status(owned("Change applied to project"), StatusLevel::Success),
                    Err(e) => self.set_status(concat2("Patch failed: ", e.as_str()), StatusLevel::Error),
                }
                Vec::new()
            },
            AppEvent::FetchError(e) => {
                self.fetch_failed(e);
                Vec::new()
            },
        }
    }

    /// Takes the vault that a `LoadVault` effect read. A vault that could not
    /// be read changes nothing: the "Settings saved" line stays.
    pub fn vault_loaded(&mut self, result: Result<Vault, String>)
        ensures
            result is Err ==> *final(self) == *old(self),
            result matches Ok(v) ==> *final(self) == (App {
                vault: v,
                env_var_rows: final(self).env_var_rows,
                env_var_selected: final(self).env_var_selected,
                ..*old(self)
            }) && rows_rebuilt(old(self).env_var_selected, *final(self)),
    {
        match result {
            Ok(v) => {
                self.vault = v;
                self.rebuild_env_var_rows();
            },
            Err(_) => {},
        }
    }

    /// Stores what the user wrote in the external editor for a vault key:
    /// one final newline, which editors add, is dropped; the vault is saved.
    pub fn apply_editor_value(&mut self, key: String, text: String) -> (effects: Vec<Effect>)
        ensures
            *final(self) == (App {
                vault: final(self).vault,
                env_var_rows: final(self).env_var_rows,
                env_var_selected: final(self).env_var_selected,
                ..*old(self)
            }),
            final(self).vault.path == old(self).vault.path,
            final(self).vault.dirty,
            final(self).vault.entries_view() == insert_entry(old(self).vault.entries_view(), key@, strip_one_newline(text@)),
            rows_rebuilt(old(self).env_var_selected, *final(self)),
            effects_view(effects@) == seq![EffectView::SaveVault],
    {
        let value = without_final_newline(text.as_str());
        self.vault.set(key, value);
        self.vault.dirty = true;
        self.rebuild_env_var_rows();
        let mut effects: Vec<Effect> = Vec::new();
        effects.push(Effect::SaveVault);
        assert(effects_view(effects@) =~= seq![EffectView::SaveVault]);
        effects
    }
}

/// A refreshed project list is ordered by display name ignoring case: for
/// any two listed projects, the lower-cased display name (title, else name)
/// of the earlier one does not come after that of the later one.
pub proof fn law_listed_in_name_order(
    s0: App,
    s1: App,
    items: Seq<ContentItem>,
    stamp: Seq<char>,
    effects: Seq<EffectView>,
)
    requires
        post_projects_fetched(s0, s1, items, stamp, effects),
    ensures
        forall|j: int, k: int|
            0 <= j < k < s1.projects@.len() ==> !seq_lt(
                lowercase(display_name(#[trigger] s1.projects@[k])),
                lowercase(display_name(#[trigger] s1.projects@[j])),
            ),
{
    let ps = s1.projects@;
    let kept = kept_items(items);
    let keys = kept_keys(items);
    let perm = choose|perm: Seq<int>|
        #[trigger] is_stable_order(keys, perm) && ps.len() == kept.len() && forall|j: int|
            0 <= j < ps.len() ==> fresh_project(ps[j], kept[perm[j]]);
    assert forall|j: int| 0 <= j < ps.len() implies lowercase(display_name(#[trigger] ps[j])) == keys[perm[j]] by {
        let i = kept[perm[j]];
        assert(fresh_project(ps[j], i));
        assert(0 <= perm[j] < keys.len());
        assert(keys[perm[j]] == item_key(i));
        match i.title {
            Some(t) => {
                assert(opt_view(ps[j].title) == Some(t@));
            },
            None => {
                assert(opt_view(ps[j].title) is None);
            },
        }
    }
    assert forall|j: int, k: int|
        0 <= j < k < ps.len() implies !seq_lt(
            lowercase(display_name(#[trigger] ps[k])),
            lowercase(display_name(#[trigger] ps[j])),
        ) by {
        assert(ranks_before(keys, perm[j], perm[k]));
        lemma_seq_lt_asymmetric(keys[perm[j]], keys[perm[k]]);
        lemma_seq_lt_irreflexive(keys[perm[j]]);
    }
}

proof fn lemma_kept_items(items: Seq<ContentItem>)
    ensures
        forall|m: int|
            0 <= m < kept_items(items).len() ==> role_allows(#[trigger] kept_items(items)[m]) && items.contains(
                kept_items(items)[m],
            ),
        forall|i: int| 0 <= i < items.len() && role_allows(#[trigger] items[i]) ==> kept_items(items).contains(items[i]),
    decreases items.len(),
{
    if items.len() > 0 {
        let d = items.drop_last();
        lemma_kept_items(d);
        let rest = kept_items(d);
        let kept = kept_items(items);
        assert forall|m: int| 0 <= m < kept.len() implies role_allows(#[trigger] kept[m]) && items.contains(kept[m]) by {
            if m < rest.len() {
                assert(kept[m] == rest[m]);
                let i = choose|i: int| 0 <= i < d.len() && d[i] == rest[m];
                assert(items[i] == d[i]);
            } else {
                assert(kept[m] == items.last());
                assert(items[items.len() - 1] == items.last());
            }
        }
        assert forall|i: int| 0 <= i < items.len() && role_allows(#[trigger] items[i]) implies kept.contains(items[i]) by {
            if i < d.len() {
                assert(d[i] == items[i]);
                let m = choose|m: int| 0 <= m < rest.len() && rest[m] == d[i];
                assert(kept[m] == rest[m]);
            } else {
                assert(kept[rest.len() as int] == items.last());
            }
        }
    }
}

/// A refreshed list shows exactly the projects the caller owns or edits:
/// every listed project is the project of an item whose role is "owner" or
/// "editor", every such item is listed, one variable read is made for each
/// listed project (with the configured server and key), the configuration
/// is saved last, and the count of reads in flight is the number listed.
pub proof fn law_refresh_lists_owned_items(
    s0: App,
    s1: App,
    items: Seq<ContentItem>,
    stamp: Seq<char>,
    effects: Seq<EffectView>,
)
    requires
        post_projects_fetched(s0, s1, items, stamp, effects),
    ensures
        forall|j: int|
            #![trigger s1.projects@[j]]
            0 <= j < s1.projects@.len() ==> exists|i: int|
                0 <= i < items.len() && (#[trigger] items[i]).guid@ == s1.projects@[j].guid@
                    && (items[i].app_role matches Some(r) && (r@ == "owner"@ || r@ == "editor"@)),
        forall|i: int|
            0 <= i < items.len() && ((#[trigger] items[i]).app_role matches Some(r) && (r@ == "owner"@
                || r@ == "editor"@)) ==> exists|j: int|
                0 <= j < s1.projects@.len() && (#[trigger] s1.projects@[j]).guid@ == items[i].guid@,
        effects.len() == s1.projects@.len() + 1,
        effects.last() == EffectView::SaveConfig,
        forall|j: int|
            0 <= j < s1.projects@.len() ==> exists|k: int|
                0 <= k < s1.projects@.len() && #[trigger] effects[k] == (EffectView::FetchEnvVars {
                    server_url: s0.config.server_url@,
                    api_key: s0.config.api_key@,
                    guid: (#[trigger] s1.projects@[j]).guid@,
                }),
        s1.pending_fetches == s1.projects@.len(),
{
    let ps = s1.projects@;
    let kept = kept_items(items);
    let keys = kept_keys(items);
    let perm = choose|perm: Seq<int>|
        #[trigger] is_stable_order(keys, perm) && ps.len() == kept.len() && forall|j: int|
            0 <= j < ps.len() ==> fresh_project(ps[j], kept[perm[j]]);
    lemma_kept_items(items);
    lemma_stable_order_is_permutation(keys, perm);
    assert forall|j: int| #![trigger ps[j]] 0 <= j < ps.len() implies exists|i: int|
        0 <= i < items.len() && (#[trigger] items[i]).guid@ == ps[j].guid@
            && (items[i].app_role matches Some(r) && (r@ == "owner"@ || r@ == "editor"@)) by {
        assert(fresh_project(ps[j], kept[perm[j]]));
        assert(role_allows(kept[perm[j]]));
        assert(items.contains(kept[perm[j]]));
        let i = choose|i: int| 0 <= i < items.len() && items[i] == kept[perm[j]];
        assert(items[i].guid@ == ps[j].guid@);
    }
    assert forall|i: int|
        0 <= i < items.len() && ((#[trigger] items[i]).app_role matches Some(r) && (r@ == "owner"@
            || r@ == "editor"@)) implies exists|j: int|
        0 <= j < ps.len() && (#[trigger] ps[j]).guid@ == items[i].guid@ by {
        assert(role_allows(items[i]));
        assert(kept.contains(items[i]));
        let m = choose|m: int| 0 <= m < kept.len() && kept[m] == items[i];
        assert(perm.contains(m));
        let j = choose|j: int| 0 <= j < perm.len() && perm[j] == m;
        assert(fresh_project(ps[j], kept[perm[j]]));
        assert(ps[j].guid@ == items[i].guid@);
    }
    assert forall|j: int| 0 <= j < ps.len() implies exists|k: int|
        0 <= k < ps.len() && #[trigger] effects[k] == (EffectView::FetchEnvVars {
            server_url: s0.config.server_url@,
            api_key: s0.config.api_key@,
            guid: (#[trigger] ps[j]).guid@,
        }) by {
        assert(fresh_project(ps[j], kept[perm[j]]));
        let k = perm[j];
        assert(effects[k] == fetch_vars_effect(s0.config, kept[k]));
    }
}

} // verus!
