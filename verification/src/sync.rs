//! Safe-merge sync: which projects a sync writes to, and what it sends.
use vstd::prelude::*;
use crate::app::{
    display_name, effects_view, lemma_project_pos, project_pos, status_view, var_view, vars_view,
    App, Effect, EffectView, ProjectEntry, PushPurpose, StatusLevel, VarView, STATUS_TICKS,
};
use crate::config::Config;
use crate::model::{contains_string, strs_view, var_names, EnvVar};
use crate::text::{concat3, decimal, decimal_string, owned};
use crate::vault::{lookup, Entries};

verus! {

/// The variables a sync sends to one project: those of `vars` that are not
/// in `excluded` and have a vault value, each with its vault value, in the
/// project's order.
pub open spec fn merged_vars(vars: Seq<EnvVar>, excluded: Seq<Seq<char>>, vault: Entries) -> Seq<
    VarView,
>
    decreases vars.len(),
{
    if vars.len() == 0 {
        Seq::empty()
    } else {
        let rest = merged_vars(vars.drop_last(), excluded, vault);
        let n = vars.last().name@;
        if !excluded.contains(n) && lookup(vault, n) is Some {
            rest.push((n, lookup(vault, n)))
        } else {
            rest
        }
    }
}

/// Syncing is safe to repeat: once a project holds exactly the variables a
/// sync sent it, the next sync sends the same again.
pub proof fn law_sync_idempotent(vars: Seq<EnvVar>, sent: Seq<EnvVar>, excluded: Seq<Seq<char>>, vault: Entries)
    requires
        vars_view(sent) == merged_vars(vars, excluded, vault),
    ensures
        merged_vars(sent, excluded, vault) == merged_vars(vars, excluded, vault),
    decreases vars.len(),
{
    if vars.len() > 0 {
        let m0 = merged_vars(vars.drop_last(), excluded, vault);
        let n = vars.last().name@;
        if !excluded.contains(n) && lookup(vault, n) is Some {
            assert(vars_view(sent.drop_last()) =~= m0) by {
                assert(vars_view(sent).drop_last() =~= vars_view(sent.drop_last()));
            }
            law_sync_idempotent(vars.drop_last(), sent.drop_last(), excluded, vault);
            assert(vars_view(sent)[sent.len() - 1] == (n, lookup(vault, n)));
            assert(sent.last().name@ == n);
        } else {
            law_sync_idempotent(vars.drop_last(), sent, excluded, vault);
        }
    } else {
        assert(vars_view(sent).len() == sent.len());
    }
}

/// The variables a sync sends to project `p`.
pub open spec fn payload_of(p: ProjectEntry, cfg: Config, vault: Entries) -> Seq<VarView> {
    merged_vars(p.env_vars@, cfg.excluded_vars.list_of(p.guid@), vault)
}

/// The sync's work list: for each whitelisted project with variables, in
/// project order, its GUID and the variables sent, leaving out projects
/// for which nothing would be sent.
pub open spec fn sync_payloads(ps: Seq<ProjectEntry>, cfg: Config, vault: Entries) -> Seq<
    (Seq<char>, Seq<VarView>),
>
    decreases ps.len(),
{
    if ps.len() == 0 {
        Seq::empty()
    } else {
        let rest = sync_payloads(ps.drop_last(), cfg, vault);
        let p = ps.last();
        if cfg.included().contains(p.guid@) && p.env_vars@.len() > 0 && payload_of(
            p,
            cfg,
            vault,
        ).len() > 0 {
            rest.push((p.guid@, payload_of(p, cfg, vault)))
        } else {
            rest
        }
    }
}

/// The display names for a list of payloads: for each GUID, the display name
/// of the first project with that GUID.
pub open spec fn payload_names(pl: Seq<(Seq<char>, Seq<VarView>)>, ps: Seq<ProjectEntry>) -> Seq<
    Seq<char>,
>
    decreases pl.len(),
{
    if pl.len() == 0 {
        Seq::empty()
    } else {
        let rest = payload_names(pl.drop_last(), ps);
        let pos = project_pos(ps, pl.last().0);
        if pos >= 0 {
            rest.push(display_name(ps[pos]))
        } else {
            rest
        }
    }
}

/// The status line after a sync starts.
pub open spec fn sync_started_text(n: nat) -> Seq<char> {
    if n > 0 {
        "Syncing "@ + decimal(n) + " project(s) to Connect…"@
    } else {
        "No env vars to sync (projects have no vars)."@
    }
}

/// The push effect a sync makes for one project and its merged variables.
pub open spec fn sync_push(cfg: Config, pl: (Seq<char>, Seq<VarView>)) -> EffectView {
    EffectView::PushEnvVars {
        server_url: cfg.server_url@,
        api_key: cfg.api_key@,
        guid: pl.0,
        vars: pl.1,
        purpose: PushPurpose::Sync,
    }
}

pub open spec fn payloads_view(r: Seq<(String, Vec<EnvVar>)>) -> Seq<(Seq<char>, Seq<VarView>)> {
    r.map_values(|p: (String, Vec<EnvVar>)| (p.0@, vars_view(p.1@)))
}

/// A copy of a list of variables.
pub fn clone_vars(v: &Vec<EnvVar>) -> (r: Vec<EnvVar>)
    ensures
        vars_view(r@) == vars_view(v@),
{
    let mut r: Vec<EnvVar> = Vec::new();
    let mut i: usize = 0;
    while i < v.len()
        invariant
            i <= v.len(),
            vars_view(r@) == vars_view(v@).take(i as int),
        decreases v.len() - i,
    {
        let c = v[i].duplicate();
        let ghost prev = r@;
        r.push(c);
        assert(vars_view(r@) =~= vars_view(prev).push(var_view(c)));
        i += 1;
        assert(vars_view(v@).take(i as int) =~= vars_view(v@).take(i - 1).push(var_view(v@[i - 1])));
    }
    assert(vars_view(v@).take(v.len() as int) == vars_view(v@));
    r
}

/// The state after asking for a sync.
pub open spec fn post_trigger_sync(s0: App, s1: App) -> bool {
    let pl = sync_payloads(s0.projects@, s0.config, s0.vault.entries_view());
    if !s0.config.configured() {
        s1 == (App { status_message: s1.status_message, ..s0 }) && status_view(s1.status_message)
            == Some(("Configure server URL and API key in Settings first"@, StatusLevel::Error, STATUS_TICKS))
    } else if s0.projects@.len() == 0 {
        s1 == (App { status_message: s1.status_message, ..s0 }) && status_view(s1.status_message)
            == Some(("No projects loaded. Press Ctrl+P to refresh."@, StatusLevel::Error, STATUS_TICKS))
    } else if pl.len() == 0 {
        s1 == (App { status_message: s1.status_message, ..s0 }) && status_view(s1.status_message)
            == Some((
            "No projects selected for sync. Press x on a project to include it."@,
            StatusLevel::Info,
            STATUS_TICKS,
        ))
    } else {
        s1 == (App { sync_confirm: s1.sync_confirm, ..s0 }) && (s1.sync_confirm matches Some(names)
            && strs_view(names@) == payload_names(pl, s0.projects@))
    }
}

/// The request that reads a sync target's current variables.
pub open spec fn sync_fetch(cfg: Config, pl: (Seq<char>, Seq<VarView>)) -> EffectView {
    EffectView::FetchForSync { server_url: cfg.server_url@, api_key: cfg.api_key@, guid: pl.0 }
}

/// What a sync pushes once project `guid`'s current variables have been
/// read: the merged list `merged` of them, unless it is empty.
pub open spec fn sync_answer(s: App, guid: Seq<char>, merged: Seq<VarView>) -> Seq<EffectView> {
    if merged.len() > 0 {
        seq![sync_push(s.config, (guid, merged))]
    } else {
        Seq::empty()
    }
}

/// The state and effects after confirming a sync: the current variables of
/// every target are read first; each answer goes to `sync_vars_fetched`.
pub open spec fn post_execute_sync(s0: App, s1: App, effects: Seq<EffectView>) -> bool {
    let pl = sync_payloads(s0.projects@, s0.config, s0.vault.entries_view());
    &&& effects == pl.map_values(|p: (Seq<char>, Seq<VarView>)| sync_fetch(s0.config, p))
    &&& s1 == (App { status_message: s1.status_message, ..s0 })
    &&& status_view(s1.status_message) == Some((sync_started_text(pl.len()), StatusLevel::Info, STATUS_TICKS))
}

impl App {
    /// The position of the first project with `guid`.
    pub fn find_project(&self, guid: &String) -> (r: Option<usize>)
        ensures
            r is Some <==> project_pos(self.projects@, guid@) >= 0,
            r matches Some(i) ==> i == project_pos(self.projects@, guid@) && i < self.projects@.len()
                && self.projects@[i as int].guid@ == guid@,
    {
        proof {
            lemma_project_pos(self.projects@, guid@);
        }
        let mut i: usize = 0;
        while i < self.projects.len()
            invariant
                i <= self.projects@.len(),
                forall|j: int| 0 <= j < i ==> (#[trigger] self.projects@[j]).guid@ != guid@,
                -1 <= project_pos(self.projects@, guid@) < self.projects@.len(),
                project_pos(self.projects@, guid@) >= 0 ==> self.projects@[project_pos(
                    self.projects@,
                    guid@,
                )].guid@ == guid@,
                project_pos(self.projects@, guid@) >= 0 ==> forall|k: int|
                    0 <= k < project_pos(self.projects@, guid@) ==> self.projects@[k].guid@
                        != guid@,
                project_pos(self.projects@, guid@) < 0 ==> forall|k: int|
                    0 <= k < self.projects@.len() ==> self.projects@[k].guid@ != guid@,
            decreases self.projects@.len() - i,
        {
            if self.projects[i].guid == *guid {
                return Some(i);
            }
            i += 1;
        }
        None
    }

    /// The variables a sync sends to `p`.
    fn merge_for_sync(&self, p: &ProjectEntry) -> (r: Vec<EnvVar>)
        ensures
            vars_view(r@) == payload_of(*p, self.config, self.vault.entries_view()),
    {
        self.merge_with_vault(p.guid.as_str(), &p.env_vars)
    }

    /// The variables of project `guid` among `vars` that a sync sends:
    /// those off the project's blacklist that the vault has, with their
    /// vault values, in order.
    fn merge_with_vault(&self, guid: &str, vars: &Vec<EnvVar>) -> (r: Vec<EnvVar>)
        ensures
            vars_view(r@) == merged_vars(vars@, self.config.excluded_vars.list_of(guid@), self.vault.entries_view()),
    {
        let excluded = self.config.excluded_vars.list_for(guid);
        let mut merged: Vec<EnvVar> = Vec::new();
        let mut i: usize = 0;
        while i < vars.len()
            invariant
                i <= vars@.len(),
                strs_view(excluded@) == self.config.excluded_vars.list_of(guid@),
                vars_view(merged@) == merged_vars(
                    vars@.take(i as int),
                    strs_view(excluded@),
                    self.vault.entries_view(),
                ),
            decreases vars@.len() - i,
        {
            let v = &vars[i];
            assert(vars@.take(i + 1).drop_last() == vars@.take(i as int));
            if !contains_string(&excluded, &v.name) {
                match self.vault.get(v.name.as_str()) {
                    Some(val) => {
                        let e = EnvVar { name: v.name.clone(), value: Some(owned(val)) };
                        let ghost prev = merged@;
                        merged.push(e);
                        assert(vars_view(merged@) =~= vars_view(prev).push(var_view(e)));
                    },
                    None => {},
                }
            }
            i += 1;
        }
        assert(vars@.take(vars@.len() as int) == vars@);
        merged
    }

    /// The answer to a sync's read of project `guid`: its current variables
    /// `vars`, overlaid with vault values where the vault has them and the
    /// blacklist allows, are pushed back; nothing is pushed when that list
    /// would be empty. The state does not change.
    pub fn sync_vars_fetched(&mut self, guid: String, vars: Vec<EnvVar>) -> (effects: Vec<Effect>)
        ensures
            *final(self) == *old(self),
            effects_view(effects@) == sync_answer(*old(self), guid@, merged_vars(
                vars@,
                old(self).config.excluded_vars.list_of(guid@),
                old(self).vault.entries_view(),
            )),
    {
        let merged = self.merge_with_vault(guid.as_str(), &vars);
        let mut effects: Vec<Effect> = Vec::new();
        if merged.len() > 0 {
            let ghost mv = vars_view(merged@);
            effects.push(Effect::PushEnvVars {
                server_url: self.config.server_url.clone(),
                api_key: self.config.api_key.clone(),
                guid,
                vars: merged,
                purpose: PushPurpose::Sync,
            });
            assert(effects_view(effects@) =~= seq![sync_push(self.config, (guid@, mv))]);
        } else {
            assert(effects_view(effects@) =~= Seq::<EffectView>::empty());
        }
        effects
    }

    /// For every whitelisted project that has variables, its GUID and the
    /// variables a sync sends to it, leaving out projects for which nothing
    /// would be sent. Both the confirmation and the sync itself use it.
    pub fn compute_sync_payloads(&self) -> (r: Vec<(String, Vec<EnvVar>)>)
        ensures
            payloads_view(r@) == sync_payloads(
                self.projects@,
                self.config,
                self.vault.entries_view(),
            ),
    {
        let mut out: Vec<(String, Vec<EnvVar>)> = Vec::new();
        let mut i: usize = 0;
        while i < self.projects.len()
            invariant
                i <= self.projects@.len(),
                payloads_view(out@) == sync_payloads(
                    self.projects@.take(i as int),
                    self.config,
                    self.vault.entries_view(),
                ),
            decreases self.projects@.len() - i,
        {
            let p = &self.projects[i];
            assert(self.projects@.take(i + 1).drop_last() == self.projects@.take(i as int));
            assert(self.projects@.take(i + 1).last() == *p);
            if self.config.includes(&p.guid) && p.env_vars.len() > 0 {
                let merged = self.merge_for_sync(p);
                if merged.len() > 0 {
                    let ghost prev = out@;
                    let g = p.guid.clone();
                    let ghost item = (g@, vars_view(merged@));
                    out.push((g, merged));
                    assert(payloads_view(out@) =~= payloads_view(prev).push(item));
                }
            }
            i += 1;
        }
        assert(self.projects@.take(self.projects@.len() as int) == self.projects@);
        out
    }

    /// Opens the sync confirmation listing the projects the sync would write
    /// to, or explains in the status line why there is nothing to sync.
    pub fn trigger_sync(&mut self)
        ensures
            post_trigger_sync(*old(self), *final(self)),
    {
        if !self.config.is_configured() {
            self.set_status(
                owned("Configure server URL and API key in Settings first"),
                StatusLevel::Error,
            );
            return ;
        }
        if self.projects.len() == 0 {
            self.set_status(owned("No projects loaded. Press Ctrl+P to refresh."), StatusLevel::Error);
            return ;
        }
        let payloads = self.compute_sync_payloads();
        if payloads.len() == 0 {
            self.set_status(
                owned("No projects selected for sync. Press x on a project to include it."),
                StatusLevel::Info,
            );
            return ;
        }
        let ghost pl = payloads_view(payloads@);
        let mut names: Vec<String> = Vec::new();
        let mut i: usize = 0;
        while i < payloads.len()
            invariant
                i <= payloads@.len(),
                pl == payloads_view(payloads@),
                strs_view(names@) == payload_names(pl.take(i as int), self.projects@),
            decreases payloads@.len() - i,
        {
            assert(pl.take(i + 1).drop_last() == pl.take(i as int));
            assert(pl.take(i + 1).last().0 == payloads@[i as int].0@);
            match self.find_project(&payloads[i].0) {
                Some(pos) => {
                    let p = &self.projects[pos];
                    let n = match &p.title {
                        Some(t) => t.clone(),
                        None => p.name.clone(),
                    };
                    let ghost prev = strs_view(names@);
                    names.push(n);
                    assert(strs_view(names@) =~= prev.push(n@));
                },
                None => {},
            }
            i += 1;
        }
        assert(pl.take(pl.len() as int) == pl);
        self.sync_confirm = Some(names);
    }

    /// Starts the sync: one read of the current variables of each target
    /// (the push follows in `sync_vars_fetched`), and a status line saying
    /// how many projects are being written.
    pub fn execute_sync(&mut self) -> (effects: Vec<Effect>)
        ensures
            post_execute_sync(*old(self), *final(self), effects_view(effects@)),
    {
        let payloads = self.compute_sync_payloads();
        let ghost pl = payloads_view(payloads@);
        let count = payloads.len();
        let mut effects: Vec<Effect> = Vec::new();
        let mut i: usize = 0;
        while i < payloads.len()
            invariant
                i <= payloads@.len(),
                pl == payloads_view(payloads@),
                effects_view(effects@) == pl.take(i as int).map_values(
                    |p: (Seq<char>, Seq<VarView>)| sync_fetch(self.config, p),
                ),
            decreases payloads@.len() - i,
        {
            let e = Effect::FetchForSync {
                server_url: self.config.server_url.clone(),
                api_key: self.config.api_key.clone(),
                guid: payloads[i].0.clone(),
            };
            let ghost prev = effects@;
            effects.push(e);
            assert(effects_view(effects@) =~= effects_view(prev).push(sync_fetch(self.config, pl[i as int])));
            i += 1;
            assert(pl.take(i as int) =~= pl.take(i - 1).push(pl[i - 1]));
        }
        assert(pl.take(pl.len() as int) == pl);
        if count > 0 {
            let n = decimal_string(count);
            let msg = concat3("Syncing ", n.as_str(), " project(s) to Connect…");
            self.set_status(msg, StatusLevel::Info);
        } else {
            self.set_status(owned("No env vars to sync (projects have no vars)."), StatusLevel::Info);
        }
        effects
    }
}

// ---------------------------------------------------------------------------
// Laws of the sync
// ---------------------------------------------------------------------------

/// Every variable a sync sends to project `p` is one of `p`'s own
/// variables, is not on `p`'s blacklist, and carries its vault value.
pub proof fn law_sync_sends_only_known_vars(p: ProjectEntry, cfg: Config, vault: Entries)
    ensures
        forall|m: int|
            0 <= m < payload_of(p, cfg, vault).len() ==> {
                let v = #[trigger] payload_of(p, cfg, vault)[m];
                &&& var_names(p.env_vars@).contains(v.0)
                &&& !cfg.excluded_vars.list_of(p.guid@).contains(v.0)
                &&& lookup(vault, v.0) is Some
                &&& v.1 == lookup(vault, v.0)
            },
{
    law_merge_sends_only_known_vars(p.env_vars@, cfg.excluded_vars.list_of(p.guid@), vault);
}

/// Whatever a sync pushes after reading a project's current variables is one
/// of those variables, is off the project's blacklist, and carries its vault
/// value: a sync adds no variable and sends no value the vault lacks.
pub proof fn law_merge_sends_only_known_vars(vars: Seq<EnvVar>, excluded: Seq<Seq<char>>, vault: Entries)
    ensures
        forall|m: int|
            0 <= m < merged_vars(vars, excluded, vault).len() ==> {
                let v = #[trigger] merged_vars(vars, excluded, vault)[m];
                &&& var_names(vars).contains(v.0)
                &&& !excluded.contains(v.0)
                &&& lookup(vault, v.0) is Some
                &&& v.1 == lookup(vault, v.0)
            },
    decreases vars.len(),
{
    if vars.len() > 0 {
        let d = vars.drop_last();
        law_merge_sends_only_known_vars(d, excluded, vault);
        let r = merged_vars(vars, excluded, vault);
        assert forall|m: int| 0 <= m < r.len() implies var_names(vars).contains(#[trigger] r[m].0) by {
            if m < merged_vars(d, excluded, vault).len() {
                let v = merged_vars(d, excluded, vault)[m];
                assert(var_names(d).contains(v.0));
                let k = choose|k: int| 0 <= k < var_names(d).len() && var_names(d)[k] == v.0;
                assert(var_names(vars)[k] == v.0);
            } else {
                assert(var_names(vars)[vars.len() - 1] == vars.last().name@);
            }
        }
    }
}

/// `pl` names a whitelisted project of `ps`, with a non-empty list that is
/// exactly what a sync sends that project.
pub open spec fn is_sync_target(
    ps: Seq<ProjectEntry>,
    cfg: Config,
    vault: Entries,
    pl: (Seq<char>, Seq<VarView>),
) -> bool {
    &&& cfg.included().contains(pl.0)
    &&& pl.1.len() > 0
    &&& exists|j: int|
        0 <= j < ps.len() && ps[j].guid@ == pl.0 && pl.1 == payload_of(ps[j], cfg, vault)
}

/// A sync only writes to whitelisted projects, only to projects that exist,
/// never sends an empty list (which would clear the project's variables),
/// and sends each project exactly its merged variables.
pub proof fn law_sync_targets(ps: Seq<ProjectEntry>, cfg: Config, vault: Entries)
    ensures
        forall|k: int|
            0 <= k < sync_payloads(ps, cfg, vault).len() ==> is_sync_target(
                ps,
                cfg,
                vault,
                #[trigger] sync_payloads(ps, cfg, vault)[k],
            ),
    decreases ps.len(),
{
    if ps.len() > 0 {
        let d = ps.drop_last();
        law_sync_targets(d, cfg, vault);
        let r = sync_payloads(ps, cfg, vault);
        assert forall|k: int| 0 <= k < r.len() implies is_sync_target(ps, cfg, vault, #[trigger] r[k]) by {
            if k < sync_payloads(d, cfg, vault).len() {
                assert(is_sync_target(d, cfg, vault, sync_payloads(d, cfg, vault)[k]));
                let j = choose|j: int|
                    0 <= j < d.len() && d[j].guid@ == sync_payloads(d, cfg, vault)[k].0
                        && sync_payloads(d, cfg, vault)[k].1 == payload_of(d[j], cfg, vault);
                assert(ps[j] == d[j]);
            } else {
                assert(ps[ps.len() - 1] == ps.last());
            }
        }
    }
}

/// The confirmation lists one name per project the sync writes to.
pub proof fn law_confirmation_names_every_target(ps: Seq<ProjectEntry>, cfg: Config, vault: Entries)
    ensures
        payload_names(sync_payloads(ps, cfg, vault), ps).len() == sync_payloads(ps, cfg, vault).len(),
{
    law_sync_targets(ps, cfg, vault);
    let pl = sync_payloads(ps, cfg, vault);
    assert forall|k: int| 0 <= k < pl.len() implies has_project(ps, (#[trigger] pl[k]).0) by {
        assert(is_sync_target(ps, cfg, vault, pl[k]));
    }
    lemma_names_len(pl, ps);
}

pub open spec fn has_project(ps: Seq<ProjectEntry>, guid: Seq<char>) -> bool {
    exists|j: int| 0 <= j < ps.len() && ps[j].guid@ == guid
}

proof fn lemma_names_len(pl: Seq<(Seq<char>, Seq<VarView>)>, ps: Seq<ProjectEntry>)
    requires
        forall|k: int| 0 <= k < pl.len() ==> has_project(ps, (#[trigger] pl[k]).0),
    ensures
        payload_names(pl, ps).len() == pl.len(),
    decreases pl.len(),
{
    if pl.len() > 0 {
        let d = pl.drop_last();
        assert forall|k: int| 0 <= k < d.len() implies has_project(ps, (#[trigger] d[k]).0) by {
            assert(d[k] == pl[k]);
        }
        lemma_names_len(d, ps);
        lemma_project_pos(ps, pl.last().0);
        assert(has_project(ps, pl[pl.len() - 1].0));
        assert(project_pos(ps, pl.last().0) >= 0);
    }
}

/// Confirming a sync reads the current variables of every project it writes
/// to, once each and in order: the `k`-th read goes to the `k`-th sync
/// target, with the configured server and key, each target is a whitelisted
/// project, there is one read per name the confirmation listed, and the
/// status line counts exactly these reads.
pub proof fn law_sync_reads_every_target(s0: App, s1: App, effects: Seq<EffectView>)
    requires
        post_execute_sync(s0, s1, effects),
    ensures
        effects.len() == sync_payloads(s0.projects@, s0.config, s0.vault.entries_view()).len(),
        effects.len() == payload_names(
            sync_payloads(s0.projects@, s0.config, s0.vault.entries_view()),
            s0.projects@,
        ).len(),
        forall|k: int|
            0 <= k < effects.len() ==> #[trigger] effects[k] == (EffectView::FetchForSync {
                server_url: s0.config.server_url@,
                api_key: s0.config.api_key@,
                guid: sync_payloads(s0.projects@, s0.config, s0.vault.entries_view())[k].0,
            }),
        forall|k: int|
            0 <= k < effects.len() ==> (#[trigger] effects[k] matches EffectView::FetchForSync { guid, .. }
                && s0.config.included().contains(guid) && has_project(s0.projects@, guid)),
        status_view(s1.status_message) == Some((sync_started_text(effects.len()), StatusLevel::Info, STATUS_TICKS)),
{
    let ps = s0.projects@;
    let vault = s0.vault.entries_view();
    let pl = sync_payloads(ps, s0.config, vault);
    law_confirmation_names_every_target(ps, s0.config, vault);
    law_sync_targets(ps, s0.config, vault);
    assert forall|k: int| 0 <= k < effects.len() implies (#[trigger] effects[k] matches EffectView::FetchForSync { guid, .. }
        && s0.config.included().contains(guid) && has_project(ps, guid)) by {
        assert(is_sync_target(ps, s0.config, vault, pl[k]));
        assert(effects[k] == sync_fetch(s0.config, pl[k]));
    }
}

} // verus!
