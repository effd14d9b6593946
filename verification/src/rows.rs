//! The Env Vars page: every variable name used by any project, once, in
//! order, with its vault value.
use vstd::prelude::*;
use crate::app::{App, EnvVarRow, ProjectEntry};
use crate::model::{clone_opt, opt_view};
use crate::text::{
    chars_of, lemma_seq_lt_asymmetric, lemma_seq_lt_irreflexive, lemma_seq_lt_total,
    lemma_seq_lt_transitive, rank_chars, seq_lt, Rank,
};
use crate::vault::{lookup, Entries};

verus! {

/// Some row has key `k`.
pub open spec fn has_row(rows: Seq<EnvVarRow>, k: Seq<char>) -> bool {
    exists|a: int| 0 <= a < rows.len() && #[trigger] rows[a].key@ == k
}

/// `k` is the name of a variable of some project of `ps`.
pub open spec fn used_by_project(ps: Seq<ProjectEntry>, k: Seq<char>) -> bool {
    exists|i: int, j: int|
        0 <= i < ps.len() && 0 <= j < ps[i].env_vars@.len()
            && #[trigger] ps[i].env_vars@[j].name@ == k
}

/// `rows` are the rows of the Env Vars page for these projects and vault:
/// each name used by any project once, in strictly increasing order, each
/// with its vault value.
pub open spec fn env_rows_exact(rows: Seq<EnvVarRow>, ps: Seq<ProjectEntry>, vault: Entries) -> bool {
    &&& forall|a: int, b: int| 0 <= a < b < rows.len() ==> seq_lt(#[trigger] rows[a].key@, #[trigger] rows[b].key@)
    &&& forall|a: int| 0 <= a < rows.len() ==> used_by_project(ps, #[trigger] rows[a].key@)
    &&& forall|a: int| 0 <= a < rows.len() ==> opt_view(#[trigger] rows[a].vault_value) == lookup(vault, rows[a].key@)
    &&& forall|k: Seq<char>| #[trigger] used_by_project(ps, k) ==> has_row(rows, k)
}

/// The names seen after looking at the projects before `i` and the first `j`
/// variables of project `i`.
pub open spec fn seen_upto(ps: Seq<ProjectEntry>, i: int, j: int, k: Seq<char>) -> bool {
    exists|i2: int, j2: int|
        0 <= i2 < ps.len() && 0 <= j2 < ps[i2].env_vars@.len()
            && (i2 < i || (i2 == i && j2 < j)) && #[trigger] ps[i2].env_vars@[j2].name@ == k
}

/// Inserts `name` into sorted rows unless it is there already.
fn add_row(rows: &mut Vec<EnvVarRow>, keys: &mut Vec<Vec<char>>, name: &String, vault: &crate::vault::Vault)
    requires
        old(rows)@.len() == old(keys)@.len(),
        forall|a: int| 0 <= a < old(rows)@.len() ==> (#[trigger] old(keys)@[a])@ == old(rows)@[a].key@,
        forall|a: int, b: int| 0 <= a < b < old(rows)@.len() ==> seq_lt(#[trigger] old(rows)@[a].key@, #[trigger] old(rows)@[b].key@),
        forall|a: int| 0 <= a < old(rows)@.len() ==> opt_view(#[trigger] old(rows)@[a].vault_value) == lookup(vault.entries_view(), old(rows)@[a].key@),
    ensures
        final(rows)@.len() == final(keys)@.len(),
        forall|a: int| 0 <= a < final(rows)@.len() ==> (#[trigger] final(keys)@[a])@ == final(rows)@[a].key@,
        forall|a: int, b: int| 0 <= a < b < final(rows)@.len() ==> seq_lt(#[trigger] final(rows)@[a].key@, #[trigger] final(rows)@[b].key@),
        forall|a: int| 0 <= a < final(rows)@.len() ==> opt_view(#[trigger] final(rows)@[a].vault_value) == lookup(vault.entries_view(), final(rows)@[a].key@),
        forall|k: Seq<char>| #[trigger] has_row(final(rows)@, k) <==> (k == name@ || has_row(old(rows)@, k)),
{
    let nc = chars_of(name.as_str());
    let mut j: usize = 0;
    while j < rows.len() && rank_chars(&keys[j], &nc) == Rank::Before
        invariant
            j <= rows@.len(),
            rows@.len() == keys@.len(),
            nc@ == name@,
            forall|a: int| 0 <= a < rows@.len() ==> (#[trigger] keys@[a])@ == rows@[a].key@,
            forall|a: int| 0 <= a < j ==> seq_lt(#[trigger] rows@[a].key@, name@),
        decreases rows@.len() - j,
    {
        j += 1;
    }
    if j < rows.len() && rank_chars(&keys[j], &nc) == Rank::Same {
        return ;
    }
    proof {
        if j < rows@.len() {
            lemma_seq_lt_total(rows@[j as int].key@, name@);
            assert(seq_lt(name@, rows@[j as int].key@));
        }
    }
    let ghost old_rows = rows@;
    let ghost old_keys = keys@;
    let value = match vault.get(name.as_str()) {
        Some(v) => Some(crate::text::owned(v)),
        None => None,
    };
    let row = EnvVarRow { key: name.clone(), vault_value: value };
    rows.insert(j, row);
    keys.insert(j, nc);
    proof {
        assert(rows@ == old_rows.insert(j as int, row));
        assert(keys@ == old_keys.insert(j as int, nc));
        assert forall|a: int| 0 <= a < rows@.len() implies (#[trigger] keys@[a])@ == rows@[a].key@ by {
            if a > j {
                assert(keys@[a] == old_keys[a - 1]);
                assert(rows@[a] == old_rows[a - 1]);
            }
        }
        assert forall|a: int, b: int| 0 <= a < b < rows@.len() implies seq_lt(#[trigger] rows@[a].key@, #[trigger] rows@[b].key@) by {
            if b < j {
            } else if b == j {
            } else if a < j {
                assert(rows@[b] == old_rows[b - 1]);
                if b - 1 > j {
                    assert(seq_lt(old_rows[j as int].key@, old_rows[b - 1].key@));
                    lemma_seq_lt_transitive(name@, old_rows[j as int].key@, old_rows[b - 1].key@);
                }
                lemma_seq_lt_transitive(rows@[a].key@, name@, old_rows[b - 1].key@);
            } else if a == j {
                assert(rows@[b] == old_rows[b - 1]);
                if b - 1 > j {
                    lemma_seq_lt_transitive(name@, old_rows[j as int].key@, old_rows[b - 1].key@);
                }
            } else {
                assert(rows@[a] == old_rows[a - 1]);
                assert(rows@[b] == old_rows[b - 1]);
            }
        }
        assert forall|a: int| 0 <= a < rows@.len() implies opt_view(#[trigger] rows@[a].vault_value) == lookup(vault.entries_view(), rows@[a].key@) by {
            if a > j {
                assert(rows@[a] == old_rows[a - 1]);
            }
        }
        assert forall|k: Seq<char>| #[trigger] has_row(rows@, k) <==> (k == name@ || has_row(old_rows, k)) by {
            if has_row(rows@, k) {
                let a = choose|a: int| 0 <= a < rows@.len() && #[trigger] rows@[a].key@ == k;
                if a < j {
                    assert(old_rows[a].key@ == k);
                } else if a > j {
                    assert(old_rows[a - 1].key@ == k);
                }
            }
            if k == name@ {
                assert(rows@[j as int].key@ == k);
            }
            if has_row(old_rows, k) {
                let a = choose|a: int| 0 <= a < old_rows.len() && #[trigger] old_rows[a].key@ == k;
                if a < j {
                    assert(rows@[a].key@ == k);
                } else {
                    assert(rows@[a + 1].key@ == k);
                }
            }
        }
    }
}

impl App {
    /// Recomputes the Env Vars rows from all projects and the
    /// vault, and keeps the selection on a row when there are rows.
    pub fn rebuild_env_var_rows(&mut self)
        ensures
            *final(self) == (App {
                env_var_rows: final(self).env_var_rows,
                env_var_selected: final(self).env_var_selected,
                ..*old(self)
            }),
            env_rows_exact(
                final(self).env_var_rows@,
                old(self).projects@,
                old(self).vault.entries_view(),
            ),
            final(self).env_var_selected == if old(self).env_var_selected
                >= final(self).env_var_rows@.len() && final(self).env_var_rows@.len() > 0 {
                (final(self).env_var_rows@.len() - 1) as usize
            } else {
                old(self).env_var_selected
            },
    {
        let ghost ps = self.projects@;
        let ghost vault = self.vault.entries_view();
        let mut rows: Vec<EnvVarRow> = Vec::new();
        let mut keys: Vec<Vec<char>> = Vec::new();
        let mut i: usize = 0;
        while i < self.projects.len()
            invariant
                i <= ps.len(),
                ps == self.projects@,
                vault == self.vault.entries_view(),
                rows@.len() == keys@.len(),
                forall|a: int| 0 <= a < rows@.len() ==> (#[trigger] keys@[a])@ == rows@[a].key@,
                forall|a: int, b: int| 0 <= a < b < rows@.len() ==> seq_lt(#[trigger] rows@[a].key@, #[trigger] rows@[b].key@),
                forall|a: int| 0 <= a < rows@.len() ==> opt_view(#[trigger] rows@[a].vault_value) == lookup(vault, rows@[a].key@),
                forall|k: Seq<char>| #[trigger] has_row(rows@, k) <==> seen_upto(ps, i as int, 0, k),
            decreases ps.len() - i,
        {
            let p = &self.projects[i];
            let mut j: usize = 0;
            while j < p.env_vars.len()
                invariant
                    i < ps.len(),
                    j <= p.env_vars@.len(),
                    *p == ps[i as int],
                    vault == self.vault.entries_view(),
                    rows@.len() == keys@.len(),
                    forall|a: int| 0 <= a < rows@.len() ==> (#[trigger] keys@[a])@ == rows@[a].key@,
                    forall|a: int, b: int| 0 <= a < b < rows@.len() ==> seq_lt(#[trigger] rows@[a].key@, #[trigger] rows@[b].key@),
                    forall|a: int| 0 <= a < rows@.len() ==> opt_view(#[trigger] rows@[a].vault_value) == lookup(vault, rows@[a].key@),
                    forall|k: Seq<char>| #[trigger] has_row(rows@, k) <==> seen_upto(ps, i as int, j as int, k),
                decreases p.env_vars@.len() - j,
            {
                let ghost before = rows@;
                add_row(&mut rows, &mut keys, &p.env_vars[j].name, &self.vault);
                proof {
                    let nm = p.env_vars@[j as int].name@;
                    assert forall|k: Seq<char>| seen_upto(ps, i as int, j + 1, k)
                        <==> (k == nm || seen_upto(ps, i as int, j as int, k)) by {
                        if seen_upto(ps, i as int, j + 1, k) {
                            let (i2, j2) = choose|i2: int, j2: int|
                                0 <= i2 < ps.len() && 0 <= j2 < ps[i2].env_vars@.len()
                                    && (i2 < i || (i2 == i && j2 < j + 1)) && #[trigger] ps[i2].env_vars@[j2].name@ == k;
                            if !(i2 == i && j2 == j) {
                                assert(seen_upto(ps, i as int, j as int, k));
                            }
                        }
                        if k == nm {
                            assert(ps[i as int].env_vars@[j as int].name@ == k);
                        }
                        if seen_upto(ps, i as int, j as int, k) {
                            let (i2, j2) = choose|i2: int, j2: int|
                                0 <= i2 < ps.len() && 0 <= j2 < ps[i2].env_vars@.len()
                                    && (i2 < i || (i2 == i && j2 < j)) && #[trigger] ps[i2].env_vars@[j2].name@ == k;
                            assert(ps[i2].env_vars@[j2].name@ == k);
                        }
                    }
                }
                j += 1;
            }
            proof {
                assert forall|k: Seq<char>| seen_upto(ps, i + 1, 0, k)
                    <==> seen_upto(ps, i as int, p.env_vars@.len() as int, k) by {
                    if seen_upto(ps, i + 1, 0, k) {
                        let (i2, j2) = choose|i2: int, j2: int|
                            0 <= i2 < ps.len() && 0 <= j2 < ps[i2].env_vars@.len()
                                && (i2 < i + 1 || (i2 == i + 1 && j2 < 0)) && #[trigger] ps[i2].env_vars@[j2].name@ == k;
                        assert(ps[i2].env_vars@[j2].name@ == k);
                    }
                    if seen_upto(ps, i as int, p.env_vars@.len() as int, k) {
                        let (i2, j2) = choose|i2: int, j2: int|
                            0 <= i2 < ps.len() && 0 <= j2 < ps[i2].env_vars@.len()
                                && (i2 < i || (i2 == i && j2 < p.env_vars@.len())) && #[trigger] ps[i2].env_vars@[j2].name@ == k;
                        assert(ps[i2].env_vars@[j2].name@ == k);
                    }
                }
            }
            i += 1;
        }
        proof {
            assert forall|k: Seq<char>| used_by_project(ps, k) <==> seen_upto(ps, ps.len() as int, 0, k) by {
                if used_by_project(ps, k) {
                    let (i2, j2) = choose|i2: int, j2: int|
                        0 <= i2 < ps.len() && 0 <= j2 < ps[i2].env_vars@.len()
                            && #[trigger] ps[i2].env_vars@[j2].name@ == k;
                    assert(ps[i2].env_vars@[j2].name@ == k);
                }
                if seen_upto(ps, ps.len() as int, 0, k) {
                    let (i2, j2) = choose|i2: int, j2: int|
                        0 <= i2 < ps.len() && 0 <= j2 < ps[i2].env_vars@.len()
                            && (i2 < ps.len() || (i2 == ps.len() && j2 < 0)) && #[trigger] ps[i2].env_vars@[j2].name@ == k;
                    assert(ps[i2].env_vars@[j2].name@ == k);
                }
            }
            assert forall|a: int| 0 <= a < rows@.len() implies used_by_project(ps, #[trigger] rows@[a].key@) by {
                assert(has_row(rows@, rows@[a].key@));
                assert(seen_upto(ps, ps.len() as int, 0, rows@[a].key@));
            }
        }
        self.env_var_rows = rows;
        if self.env_var_selected >= self.env_var_rows.len() && self.env_var_rows.len() > 0 {
            self.env_var_selected = self.env_var_rows.len() - 1;
        }
    }
}

/// The Env Vars rows are unique: no two rows have the same key.
pub proof fn law_env_rows_distinct(rows: Seq<EnvVarRow>, ps: Seq<ProjectEntry>, vault: Entries)
    requires
        env_rows_exact(rows, ps, vault),
    ensures
        forall|a: int, b: int| 0 <= a < rows.len() && 0 <= b < rows.len() && a != b ==> rows[a].key@ != rows[b].key@,
{
    assert forall|a: int, b: int| 0 <= a < rows.len() && 0 <= b < rows.len() && a != b implies rows[a].key@ != rows[b].key@ by {
        if a < b {
            assert(seq_lt(rows[a].key@, rows[b].key@));
            lemma_seq_lt_irreflexive(rows[a].key@);
        } else {
            assert(seq_lt(rows[b].key@, rows[a].key@));
            lemma_seq_lt_irreflexive(rows[b].key@);
        }
    }
}

} // verus!
