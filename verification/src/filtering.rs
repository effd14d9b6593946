//! Filtering the lists of the pages, and the key suggestions of the add-var
//! popup.
use vstd::prelude::*;
use crate::app::{display_name, project_pos, App, EnvVarRow, Page, ProjectEntry};
use crate::filter::{query_accepts, query_matches};
use crate::model::{contains_string, strs_view, var_names, EnvVar};
use crate::text::{lowercase, seq_contains, str_contains, to_lower};
use crate::vault::Entries;

verus! {

/// How many of `texts` the filter `q` keeps.
pub open spec fn count_accepted(q: Seq<char>, texts: Seq<Seq<char>>) -> nat
    decreases texts.len(),
{
    if texts.len() == 0 {
        0
    } else {
        count_accepted(q, texts.drop_last()) + if query_accepts(q, texts.last()) {
            1nat
        } else {
            0nat
        }
    }
}

/// The position in `texts` of the `n`-th text (from 0) that `q` keeps.
pub open spec fn nth_accepted(q: Seq<char>, texts: Seq<Seq<char>>, n: nat) -> Option<int>
    decreases texts.len(),
{
    if texts.len() == 0 {
        None
    } else if query_accepts(q, texts[0]) && n == 0 {
        Some(0)
    } else {
        let m: nat = if query_accepts(q, texts[0]) {
            (n - 1) as nat
        } else {
            n
        };
        match nth_accepted(q, texts.drop_first(), m) {
            Some(i) => Some(i + 1),
            None => None,
        }
    }
}

pub open spec fn project_names(ps: Seq<ProjectEntry>) -> Seq<Seq<char>> {
    ps.map_values(|p: ProjectEntry| display_name(p))
}

pub open spec fn row_keys(rows: Seq<EnvVarRow>) -> Seq<Seq<char>> {
    rows.map_values(|r: EnvVarRow| r.key@)
}

pub open spec fn entry_keys(e: Entries) -> Seq<Seq<char>> {
    e.map_values(|p: (Seq<char>, Seq<char>)| p.0)
}

/// The texts the filter is applied to on `page`.
pub open spec fn page_texts(app: App, page: Page) -> Seq<Seq<char>> {
    match page {
        Page::ProjectList => project_names(app.projects@),
        Page::EnvVarList => row_keys(app.env_var_rows@),
        Page::Vault => entry_keys(app.vault.entries_view()),
        Page::Settings => Seq::empty(),
    }
}

/// The vault keys offered when adding a variable to the project `guid`:
/// in vault order, the keys the project does not have yet that contain the
/// lower-cased query (all of them when it is empty), ignoring case.
pub open spec fn suggestions_for(keys: Seq<Seq<char>>, existing: Seq<Seq<char>>, q: Seq<char>) -> Seq<Seq<char>>
    decreases keys.len(),
{
    if keys.len() == 0 {
        Seq::empty()
    } else {
        let rest = suggestions_for(keys.drop_last(), existing, q);
        let k = keys.last();
        if !existing.contains(k) && (q.len() == 0 || seq_contains(lowercase(k), q)) {
            rest.push(k)
        } else {
            rest
        }
    }
}

/// The add-var popup's suggestions in state `app`.
pub open spec fn add_var_suggestions_of(app: App) -> Seq<Seq<char>> {
    match app.add_var_popup {
        None => Seq::empty(),
        Some(popup) => {
            let pos = project_pos(app.projects@, popup.guid@);
            let existing = if pos >= 0 {
                var_names(app.projects@[pos].env_vars@)
            } else {
                Seq::empty()
            };
            suggestions_for(entry_keys(app.vault.entries_view()), existing, lowercase(popup.query@))
        },
    }
}

/// The vault position that the Vault page's cursor designates.
pub open spec fn effective_vault_index_of(app: App) -> Option<int> {
    if app.filter_query@.len() == 0 {
        if app.vault.entries_view().len() == 0 {
            None
        } else {
            Some(app.vault_selected as int)
        }
    } else {
        nth_accepted(app.filter_query@, entry_keys(app.vault.entries_view()), app.filter_selected as nat)
    }
}

proof fn lemma_count_le(q: Seq<char>, texts: Seq<Seq<char>>)
    ensures
        count_accepted(q, texts) <= texts.len(),
    decreases texts.len(),
{
    if texts.len() > 0 {
        lemma_count_le(q, texts.drop_last());
    }
}

impl App {
    /// Whether the current filter keeps `text`.
    pub fn filter_matches(&self, text: &str) -> (r: bool)
        ensures
            r == query_accepts(self.filter_query@, text@),
    {
        query_matches(self.filter_query.as_str(), text)
    }

    /// How many entries of the current page the filter keeps.
    pub fn filtered_count(&self) -> (n: usize)
        ensures
            n == count_accepted(self.filter_query@, page_texts(*self, self.page)),
    {
        match self.page {
            Page::ProjectList => {
                let ghost t = project_names(self.projects@);
                let mut n: usize = 0;
                let mut i: usize = 0;
                while i < self.projects.len()
                    invariant
                        i <= self.projects@.len(),
                        t == project_names(self.projects@),
                        n == count_accepted(self.filter_query@, t.take(i as int)),
                    decreases self.projects@.len() - i,
                {
                    let p = &self.projects[i];
                    let name = match &p.title {
                        Some(tt) => tt.as_str(),
                        None => p.name.as_str(),
                    };
                    assert(t.take(i + 1).drop_last() == t.take(i as int));
                    assert(t.take(i + 1).last() == display_name(self.projects@[i as int]));
                    proof {
                        lemma_count_le(self.filter_query@, t.take(i as int));
                    }
                    if self.filter_matches(name) {
                        n += 1;
                    }
                    i += 1;
                }
                assert(t.take(t.len() as int) == t);
                n
            },
            Page::EnvVarList => {
                let ghost t = row_keys(self.env_var_rows@);
                let mut n: usize = 0;
                let mut i: usize = 0;
                while i < self.env_var_rows.len()
                    invariant
                        i <= self.env_var_rows@.len(),
                        t == row_keys(self.env_var_rows@),
                        n == count_accepted(self.filter_query@, t.take(i as int)),
                    decreases self.env_var_rows@.len() - i,
                {
                    assert(t.take(i + 1).drop_last() == t.take(i as int));
                    assert(t.take(i + 1).last() == self.env_var_rows@[i as int].key@);
                    proof {
                        lemma_count_le(self.filter_query@, t.take(i as int));
                    }
                    if self.filter_matches(self.env_var_rows[i].key.as_str()) {
                        n += 1;
                    }
                    i += 1;
                }
                assert(t.take(t.len() as int) == t);
                n
            },
            Page::Vault => {
                let ghost t = entry_keys(self.vault.entries_view());
                let len = self.vault.len();
                let mut n: usize = 0;
                let mut i: usize = 0;
                while i < len
                    invariant
                        i <= len,
                        len == t.len(),
                        t == entry_keys(self.vault.entries_view()),
                        n == count_accepted(self.filter_query@, t.take(i as int)),
                    decreases len - i,
                {
                    let k = match self.vault.key_at(i) {
                        Some(k) => k,
                        None => {
                            assert(false);
                            String::new()
                        },
                    };
                    assert(t.take(i + 1).drop_last() == t.take(i as int));
                    assert(t.take(i + 1).last() == k@);
                    proof {
                        lemma_count_le(self.filter_query@, t.take(i as int));
                    }
                    if self.filter_matches(k.as_str()) {
                        n += 1;
                    }
                    i += 1;
                }
                assert(t.take(t.len() as int) == t);
                n
            },
            Page::Settings => 0,
        }
    }

    /// The vault position the Vault page's cursor designates: the selected
    /// row without a filter, else the `filter_selected`-th key the filter
    /// keeps. None when there is no such entry.
    pub fn effective_vault_index(&self) -> (r: Option<usize>)
        ensures
            match r {
                Some(i) => effective_vault_index_of(*self) == Some(i as int),
                None => effective_vault_index_of(*self) is None,
            },
    {
        if self.filter_query.as_str().is_empty() {
            if self.vault.len() == 0 {
                None
            } else {
                Some(self.vault_selected)
            }
        } else {
            let ghost t = entry_keys(self.vault.entries_view());
            let len = self.vault.len();
            let mut seen: usize = 0;
            let mut i: usize = 0;
            assert(t.skip(0) == t);
            while i < len
                invariant
                    i <= len,
                    len == t.len(),
                    t == entry_keys(self.vault.entries_view()),
                    seen <= self.filter_selected,
                    seen <= i,
                    self.filter_query@.len() > 0,
                    nth_accepted(self.filter_query@, t, self.filter_selected as nat) == match nth_accepted(
                        self.filter_query@,
                        t.skip(i as int),
                        (self.filter_selected - seen) as nat,
                    ) {
                        Some(j) => Some(j + i),
                        None => None,
                    },
                decreases len - i,
            {
                let k = match self.vault.key_at(i) {
                    Some(k) => k,
                    None => {
                        assert(false);
                        String::new()
                    },
                };
                assert(t.skip(i as int)[0] == k@);
                assert(t.skip(i as int).drop_first() == t.skip(i + 1));
                if self.filter_matches(k.as_str()) {
                    if seen == self.filter_selected {
                        assert(nth_accepted(self.filter_query@, t.skip(i as int), 0) == Some(0int));
                        return Some(i);
                    }
                    seen += 1;
                }
                i += 1;
            }
            assert(t.skip(len as int).len() == 0);
            assert(nth_accepted(self.filter_query@, t.skip(len as int), (self.filter_selected - seen) as nat) is None);
            None
        }
    }

    /// Vault keys matching the add-var popup's query that the project does
    /// not have yet.
    pub fn add_var_suggestions(&self) -> (r: Vec<String>)
        ensures
            strs_view(r@) == add_var_suggestions_of(*self),
    {
        match &self.add_var_popup {
            None => {
                let r: Vec<String> = Vec::new();
                assert(strs_view(r@) =~= Seq::<Seq<char>>::empty());
                r
            },
            Some(popup) => {
                let q = to_lower(popup.query.as_str());
                let mut existing: Vec<String> = Vec::new();
                match self.find_project(&popup.guid) {
                    Some(pos) => {
                        let vars = &self.projects[pos].env_vars;
                        let mut j: usize = 0;
                        while j < vars.len()
                            invariant
                                j <= vars@.len(),
                                strs_view(existing@) == var_names(vars@).take(j as int),
                            decreases vars@.len() - j,
                        {
                            let ghost prev = strs_view(existing@);
                            let n = vars[j].name.clone();
                            existing.push(n);
                            assert(strs_view(existing@) =~= prev.push(n@));
                            j += 1;
                            assert(var_names(vars@).take(j as int) =~= var_names(vars@).take(j - 1).push(vars@[j - 1].name@));
                        }
                        assert(var_names(vars@).take(vars@.len() as int) == var_names(vars@));
                    },
                    None => {
                        assert(strs_view(existing@) =~= Seq::<Seq<char>>::empty());
                    },
                }
                let ghost t = entry_keys(self.vault.entries_view());
                let ghost ex = strs_view(existing@);
                let len = self.vault.len();
                let mut out: Vec<String> = Vec::new();
                let mut i: usize = 0;
                while i < len
                    invariant
                        i <= len,
                        len == t.len(),
                        t == entry_keys(self.vault.entries_view()),
                        ex == strs_view(existing@),
                        q@ == lowercase(popup.query@),
                        strs_view(out@) == suggestions_for(t.take(i as int), ex, q@),
                    decreases len - i,
                {
                    let k = match self.vault.key_at(i) {
                        Some(k) => k,
                        None => {
                            assert(false);
                            String::new()
                        },
                    };
                    assert(t.take(i + 1).drop_last() == t.take(i as int));
                    assert(t.take(i + 1).last() == k@);
                    if !contains_string(&existing, &k) {
                        let keep = if q.as_str().is_empty() {
                            true
                        } else {
                            let lk = to_lower(k.as_str());
                            str_contains(lk.as_str(), q.as_str())
                        };
                        if keep {
                            let ghost prev = strs_view(out@);
                            let ghost kv = k@;
                            out.push(k);
                            assert(strs_view(out@) =~= prev.push(kv));
                        }
                    }
                    i += 1;
                }
                assert(t.take(t.len() as int) == t);
                out
            },
        }
    }
}

proof fn lemma_suggestions_for(keys: Seq<Seq<char>>, existing: Seq<Seq<char>>, q: Seq<char>, k: Seq<char>)
    ensures
        suggestions_for(keys, existing, q).contains(k) <==> (keys.contains(k) && !existing.contains(k) && (
        q.len() == 0 || seq_contains(lowercase(k), q))),
    decreases keys.len(),
{
    if keys.len() > 0 {
        let d = keys.drop_last();
        lemma_suggestions_for(d, existing, q, k);
        let rest = suggestions_for(d, existing, q);
        if keys.contains(k) && k != keys.last() {
            let i = choose|i: int| 0 <= i < keys.len() && keys[i] == k;
            assert(d[i] == k);
        }
        if d.contains(k) {
            let i = choose|i: int| 0 <= i < d.len() && d[i] == k;
            assert(keys[i] == k);
        }
        assert(keys[keys.len() - 1] == keys.last());
        if rest.contains(k) {
            let i = choose|i: int| 0 <= i < rest.len() && rest[i] == k;
            assert(rest.push(keys.last())[i] == k);
        }
        if rest.push(keys.last()).contains(k) && k != keys.last() {
            let i = choose|i: int| 0 <= i < rest.len() + 1 && rest.push(keys.last())[i] == k;
            assert(rest[i] == k);
        }
        assert(rest.push(keys.last())[rest.len() as int] == keys.last());
    }
}

/// The add-var popup offers a vault key exactly when the project does not
/// have that variable yet and the key contains the query, both lower-cased
/// (every such key when the lower-cased query is empty): the query is
/// compared ignoring case on both sides.
pub proof fn law_suggestions_ignore_case(app: App, k: Seq<char>)
    requires
        app.add_var_popup is Some,
    ensures
        ({
            let popup = app.add_var_popup->0;
            let pos = project_pos(app.projects@, popup.guid@);
            let existing = if pos >= 0 {
                var_names(app.projects@[pos].env_vars@)
            } else {
                Seq::empty()
            };
            let q = lowercase(popup.query@);
            add_var_suggestions_of(app).contains(k) <==> (entry_keys(app.vault.entries_view()).contains(k)
                && !existing.contains(k) && (q.len() == 0 || seq_contains(lowercase(k), q)))
        }),
{
    let popup = app.add_var_popup->0;
    let pos = project_pos(app.projects@, popup.guid@);
    let existing = if pos >= 0 {
        var_names(app.projects@[pos].env_vars@)
    } else {
        Seq::empty()
    };
    lemma_suggestions_for(entry_keys(app.vault.entries_view()), existing, lowercase(popup.query@), k);
}

proof fn lemma_count_prepend(q: Seq<char>, x: Seq<char>, s: Seq<Seq<char>>)
    ensures
        count_accepted(q, seq![x] + s) == count_accepted(q, s) + if query_accepts(q, x) {
            1nat
        } else {
            0nat
        },
    decreases s.len(),
{
    if s.len() == 0 {
        assert(seq![x] + s =~= seq![x]);
        assert(seq![x].drop_last() =~= Seq::<Seq<char>>::empty());
        assert(count_accepted(q, seq![x].drop_last()) == 0);
        assert(seq![x].last() == x);
    } else {
        lemma_count_prepend(q, x, s.drop_last());
        assert((seq![x] + s).drop_last() =~= seq![x] + s.drop_last());
        assert((seq![x] + s).last() == s.last());
    }
}

proof fn lemma_nth_accepted(q: Seq<char>, t: Seq<Seq<char>>, n: nat)
    ensures
        nth_accepted(q, t, n) matches Some(i) ==> (0 <= i < t.len() && query_accepts(q, t[i])
            && count_accepted(q, t.take(i)) == n),
        nth_accepted(q, t, n) is None ==> count_accepted(q, t) <= n,
    decreases t.len(),
{
    if t.len() > 0 {
        let d = t.drop_first();
        let acc = query_accepts(q, t[0]);
        let m: nat = if acc { (n - 1) as nat } else { n };
        assert(t =~= seq![t[0]] + d);
        lemma_count_prepend(q, t[0], d);
        if acc && n == 0 {
            assert(t.take(0) =~= Seq::<Seq<char>>::empty());
        } else {
            lemma_nth_accepted(q, d, m);
            match nth_accepted(q, d, m) {
                Some(j) => {
                    assert(t.take(j + 1) =~= seq![t[0]] + d.take(j));
                    lemma_count_prepend(q, t[0], d.take(j));
                    assert(t[j + 1] == d[j]);
                },
                None => {},
            }
        }
    }
}

/// With a filter typed, the vault entry that an edit or a delete acts on is
/// the one the filtered table highlights: position `i` is designated only
/// when the filter keeps key `i` and keeps exactly `filter_selected` of the
/// keys before it; and nothing is designated only when the filter keeps no
/// more than `filter_selected` keys in all.
pub proof fn law_filtered_index_is_highlighted(app: App)
    requires
        app.filter_query@.len() > 0,
    ensures
        ({
            let keys = entry_keys(app.vault.entries_view());
            let q = app.filter_query@;
            &&& (effective_vault_index_of(app) matches Some(i) ==> (0 <= i < keys.len()
                && query_accepts(q, keys[i]) && count_accepted(q, keys.take(i)) == app.filter_selected))
            &&& (effective_vault_index_of(app) is None ==> count_accepted(q, keys) <= app.filter_selected)
        }),
{
    lemma_nth_accepted(app.filter_query@, entry_keys(app.vault.entries_view()), app.filter_selected as nat);
}

} // verus!
