//! Keyboard handling: what each key does to the state, page by page.
use vstd::prelude::*;
use crate::app::{
    effects_view, page_at, page_index, App, EditorTarget, Effect, EffectView, InputEvent, KeyCode,
    KeyInput, Page, StatusLevel, VaultField, SETTINGS_FIELD_COUNT, STATUS_TICKS, status_view,
};
use crate::config::{toggled, Config};
use crate::edits::{post_commit_add_var, post_delete_var, post_trigger_add_var, rows_rebuilt};
use crate::events::post_trigger_fetch;
use crate::filtering::{add_var_suggestions_of, count_accepted, effective_vault_index_of, entry_keys, page_texts};
use crate::sync::{post_execute_sync, post_trigger_sync};
use crate::text::{clear_string, owned, pop_char, push_char};
use crate::theme::{next_theme, Palette};
use crate::vault::{insert_entry, key_pos, lookup, permute, remove_entry, sorted_entries, insert_all};

verus! {

pub open spec fn is_up(k: KeyInput) -> bool {
    k.code == KeyCode::Up || k.code == KeyCode::Char('k')
}

pub open spec fn is_down(k: KeyInput) -> bool {
    k.code == KeyCode::Down || k.code == KeyCode::Char('j')
}

pub open spec fn is_back(k: KeyInput) -> bool {
    k.code == KeyCode::Left || k.code == KeyCode::Esc || k.code == KeyCode::Char('h')
}

/// The text with its last character removed, if it has one.
pub open spec fn dropped(s: Seq<char>) -> Seq<char> {
    if s.len() > 0 {
        s.drop_last()
    } else {
        s
    }
}

/// A vault entry or a setting is being edited.
pub open spec fn in_edit(s: App) -> bool {
    s.vault_editing is Some || s.settings_editing
}

/// Keys are going into a text field.
pub open spec fn typing(s: App) -> bool {
    (!s.sidebar_focused && s.filter_editing) || in_edit(s)
}

fn key_is_up(k: KeyInput) -> (r: bool)
    ensures
        r == is_up(k),
{
    k.code == KeyCode::Up || k.code == KeyCode::Char('k')
}

fn key_is_down(k: KeyInput) -> (r: bool)
    ensures
        r == is_down(k),
{
    k.code == KeyCode::Down || k.code == KeyCode::Char('j')
}

fn key_is_back(k: KeyInput) -> (r: bool)
    ensures
        r == is_back(k),
{
    k.code == KeyCode::Left || k.code == KeyCode::Esc || k.code == KeyCode::Char('h')
}

// ---------------------------------------------------------------------------
// Specifications of the handlers
// ---------------------------------------------------------------------------

/// Typing in the filter field.
pub open spec fn post_filter_key(s0: App, s1: App, k: KeyInput) -> bool {
    if k.code == KeyCode::Esc || k.code == KeyCode::Enter {
        s1 == (App { filter_editing: false, ..s0 })
    } else if k.code == KeyCode::Backspace {
        s1 == (App { filter_query: s1.filter_query, filter_selected: 0, ..s0 }) && s1.filter_query@
            == dropped(s0.filter_query@)
    } else if k.code is Char {
        s1 == (App { filter_query: s1.filter_query, filter_selected: 0, ..s0 }) && s1.filter_query@
            == s0.filter_query@.push(k.code->Char_0)
    } else {
        s1 == s0
    }
}

/// The add-var popup holds query `q` and selection `sel`; nothing else changed.
pub open spec fn popup_set(s0: App, s1: App, q: Seq<char>, sel: usize) -> bool {
    &&& s1 == (App { add_var_popup: s1.add_var_popup, ..s0 })
    &&& s1.add_var_popup matches Some(p1)
    &&& p1.guid == s0.add_var_popup->0.guid
    &&& p1.query@ == q
    &&& p1.selected == sel
}

/// A key while the add-var popup is open.
pub open spec fn post_popup_key(s0: App, s1: App, k: KeyInput, effects: Seq<EffectView>) -> bool {
    let pp = s0.add_var_popup->0;
    if k.code == KeyCode::Esc {
        s1 == (App { add_var_popup: None, ..s0 }) && effects.len() == 0
    } else if k.code == KeyCode::Enter {
        post_commit_add_var(s0, s1, effects)
    } else if k.code == KeyCode::Up {
        effects.len() == 0 && popup_set(
            s0,
            s1,
            pp.query@,
            if pp.selected > 0 {
                (pp.selected - 1) as usize
            } else {
                pp.selected
            },
        )
    } else if k.code == KeyCode::Down {
        effects.len() == 0 && popup_set(
            s0,
            s1,
            pp.query@,
            if pp.selected + 1 < add_var_suggestions_of(s0).len() {
                (pp.selected + 1) as usize
            } else {
                pp.selected
            },
        )
    } else if k.code == KeyCode::Backspace {
        effects.len() == 0 && popup_set(s0, s1, dropped(pp.query@), 0)
    } else if k.code is Char {
        effects.len() == 0 && popup_set(s0, s1, pp.query@.push(k.code->Char_0), 0)
    } else {
        s1 == s0 && effects.len() == 0
    }
}

/// Switching to page `p` clears the filter.
pub open spec fn page_switched(s0: App, s1: App, p: Page) -> bool {
    &&& s1 == (App {
        page: p,
        filter_query: s1.filter_query,
        filter_editing: false,
        filter_selected: 0,
        ..s0
    })
    &&& s1.filter_query@.len() == 0
}

/// A key while the sidebar has focus.
pub open spec fn post_sidebar_key(s0: App, s1: App, k: KeyInput) -> bool {
    let idx = page_index(s0.page);
    if is_up(k) {
        if idx > 0 {
            page_switched(s0, s1, page_at(idx - 1))
        } else {
            s1 == s0
        }
    } else if is_down(k) {
        if idx < 3 {
            page_switched(s0, s1, page_at(idx + 1))
        } else {
            s1 == s0
        }
    } else if k.code == KeyCode::Enter || k.code == KeyCode::Right || k.code == KeyCode::Char('l') {
        s1 == (App { sidebar_focused: false, ..s0 })
    } else {
        s1 == s0
    }
}

/// A key on the project list.
pub open spec fn post_project_key(s0: App, s1: App, k: KeyInput, effects: Seq<EffectView>) -> bool {
    let count = s0.projects@.len();
    let sel = s0.project_list_selected;
    if is_up(k) {
        &&& effects.len() == 0
        &&& if count == 0 {
            s1 == s0
        } else if s0.project_var_selected is Some {
            let v = s0.project_var_selected->0;
            s1 == (App {
                project_var_selected: if v > 0 {
                    Some((v - 1) as usize)
                } else {
                    None
                },
                ..s0
            })
        } else if sel > 0 {
            let prev = s0.projects@[sel - 1];
            s1 == (App {
                project_list_selected: (sel - 1) as usize,
                project_var_selected: if s0.project_expanded@.contains(prev.guid@)
                    && prev.env_vars@.len() > 0 {
                    Some((prev.env_vars@.len() - 1) as usize)
                } else {
                    None
                },
                ..s0
            })
        } else {
            s1 == s0
        }
    } else if is_down(k) {
        &&& effects.len() == 0
        &&& if count == 0 {
            s1 == s0
        } else if s0.project_var_selected is Some {
            let v = s0.project_var_selected->0;
            if v + 1 < s0.projects@[sel as int].env_vars@.len() {
                s1 == (App { project_var_selected: Some((v + 1) as usize), ..s0 })
            } else if sel + 1 < count {
                s1 == (App {
                    project_list_selected: (sel + 1) as usize,
                    project_var_selected: None,
                    ..s0
                })
            } else {
                s1 == s0
            }
        } else {
            let p = s0.projects@[sel as int];
            if s0.project_expanded@.contains(p.guid@) && p.env_vars@.len() > 0 {
                s1 == (App { project_var_selected: Some(0), ..s0 })
            } else if sel + 1 < count {
                s1 == (App { project_list_selected: (sel + 1) as usize, ..s0 })
            } else {
                s1 == s0
            }
        }
    } else if k.code == KeyCode::Enter || k.code == KeyCode::Char(' ') {
        &&& effects.len() == 0
        &&& if s0.project_var_selected is None && sel < count {
            let g = s0.projects@[sel as int].guid@;
            if s0.project_expanded@.contains(g) {
                s1 == (App { project_expanded: s1.project_expanded, project_var_selected: None, ..s0 })
                    && s1.project_expanded@ == s0.project_expanded@.remove(g)
            } else {
                s1 == (App { project_expanded: s1.project_expanded, ..s0 })
                    && s1.project_expanded@ == s0.project_expanded@.insert(g)
            }
        } else {
            s1 == s0
        }
    } else if k.code == KeyCode::Char('x') {
        if sel < count {
            let p = s0.projects@[sel as int];
            &&& effects == seq![EffectView::SaveConfig]
            &&& s1 == (App { config: s1.config, ..s0 })
            &&& if s0.project_var_selected is Some {
                let v = s0.project_var_selected->0;
                if v < p.env_vars@.len() {
                    s1.config == (Config { excluded_vars: s1.config.excluded_vars, ..s0.config })
                        && s1.config.excluded_vars@ == s0.config.excluded_vars@.insert(
                        p.guid@,
                        toggled(s0.config.excluded_vars.list_of(p.guid@), p.env_vars@[v as int].name@),
                    )
                } else {
                    s1.config == s0.config
                }
            } else {
                s1.config == (Config { included_projects: s1.config.included_projects, ..s0.config })
                    && s1.config.included() == toggled(s0.config.included(), p.guid@)
            }
        } else {
            s1 == s0 && effects.len() == 0
        }
    } else if k.code == KeyCode::Char('d') {
        if s0.project_var_selected is Some {
            post_delete_var(s0, s1, effects)
        } else {
            s1 == s0 && effects.len() == 0
        }
    } else if k.code == KeyCode::Char('a') {
        post_trigger_add_var(s0, s1) && effects.len() == 0
    } else if is_back(k) {
        s1 == (App { sidebar_focused: true, ..s0 }) && effects.len() == 0
    } else if k.code == KeyCode::Char('g') {
        &&& effects.len() == 0
        &&& if count > 0 {
            s1 == (App { project_list_selected: 0, project_var_selected: None, ..s0 })
        } else {
            s1 == s0
        }
    } else if k.code == KeyCode::Char('G') {
        &&& effects.len() == 0
        &&& if count > 0 {
            s1 == (App { project_list_selected: (count - 1) as usize, project_var_selected: None, ..s0 })
        } else {
            s1 == s0
        }
    } else {
        s1 == s0 && effects.len() == 0
    }
}

/// A key on the Env Vars page.
pub open spec fn post_env_key(s0: App, s1: App, k: KeyInput) -> bool {
    let count = s0.env_var_rows@.len();
    let sel = s0.env_var_selected;
    if s0.env_var_detail is Some {
        s1 == (App { env_var_detail: None, ..s0 })
    } else if is_up(k) {
        s1 == (App {
            env_var_selected: if count > 0 && sel > 0 {
                (sel - 1) as usize
            } else {
                sel
            },
            ..s0
        })
    } else if is_down(k) {
        s1 == (App {
            env_var_selected: if sel + 1 < count {
                (sel + 1) as usize
            } else {
                sel
            },
            ..s0
        })
    } else if k.code == KeyCode::Char(' ') || k.code == KeyCode::Enter {
        if sel < count {
            s1 == (App { env_var_detail: s1.env_var_detail, ..s0 }) && (s1.env_var_detail matches Some(
                d,
            ) && d@ == s0.env_var_rows@[sel as int].key@)
        } else {
            s1 == s0
        }
    } else if k.code == KeyCode::Char('e') || k.code == KeyCode::Char('E') {
        if sel < count {
            s1 == (App { open_editor_for: s1.open_editor_for, ..s0 }) && (s1.open_editor_for matches Some(
                EditorTarget::VaultEntry(key),
            ) && key@ == s0.env_var_rows@[sel as int].key@)
        } else {
            s1 == s0
        }
    } else if is_back(k) {
        s1 == (App { sidebar_focused: true, ..s0 })
    } else if k.code == KeyCode::Char('g') {
        s1 == (App { env_var_selected: 0, ..s0 })
    } else if k.code == KeyCode::Char('G') {
        s1 == (App {
            env_var_selected: if count > 0 {
                (count - 1) as usize
            } else {
                sel
            },
            ..s0
        })
    } else {
        s1 == s0
    }
}

/// The value of vault entry `i`, or nothing when there is no such entry.
pub open spec fn value_or_empty(e: crate::vault::Entries, i: int) -> Seq<char> {
    if 0 <= i < e.len() {
        e[i].1
    } else {
        Seq::empty()
    }
}

/// Committing the edit of a vault entry.
pub open spec fn post_commit_vault_edit(s0: App, s1: App, effects: Seq<EffectView>) -> bool {
    let e = s0.vault.entries_view();
    let buf = s0.vault_edit_buffer@;
    match s0.vault_editing {
        None => s1 == s0 && effects.len() == 0,
        Some(idx) => if s0.vault_edit_field == VaultField::Value || idx >= e.len() || buf.len() == 0 {
            &&& effects == seq![EffectView::SaveVault]
            &&& s1 == (App {
                vault: s1.vault,
                vault_editing: None,
                vault_edit_buffer: s1.vault_edit_buffer,
                env_var_rows: s1.env_var_rows,
                env_var_selected: s1.env_var_selected,
                ..s0
            })
            &&& s1.vault_edit_buffer@.len() == 0
            &&& s1.vault.path == s0.vault.path
            &&& if idx >= e.len() {
                s1.vault.entries_view() == e && s1.vault.dirty == s0.vault.dirty
            } else if s0.vault_edit_field == VaultField::Value {
                s1.vault.entries_view() == insert_entry(e, e[idx as int].0, buf) && s1.vault.dirty
            } else {
                s1.vault.entries_view() == remove_entry(e, e[idx as int].0) && s1.vault.dirty
            }
            &&& rows_rebuilt(s0.env_var_selected, s1)
        } else {
            &&& effects.len() == 0
            &&& s1 == (App {
                vault: s1.vault,
                vault_selected: s1.vault_selected,
                vault_edit_buffer: s1.vault_edit_buffer,
                vault_edit_field: VaultField::Value,
                vault_editing: Some(s1.vault_selected),
                ..s0
            })
            &&& s1.vault_edit_buffer@.len() == 0
            &&& s1.vault.path == s0.vault.path
            &&& s1.vault.dirty
            &&& key_renamed(e, e[idx as int].0, buf, s1.vault.entries_view(), s1.vault_selected)
        },
    }
}

/// `e` with key `old_key` renamed to `new_key`: the old entry leaves, and
/// the new key, with the old value, is set.
pub open spec fn renamed_entries(e: crate::vault::Entries, old_key: Seq<char>, new_key: Seq<char>) -> crate::vault::Entries {
    let old_val = match lookup(e, old_key) {
        Some(v) => v,
        None => Seq::empty(),
    };
    insert_entry(remove_entry(e, old_key), new_key, old_val)
}

/// Entries `e3` are `e` with key `old_key` renamed to `new_key` (its value
/// kept) and then sorted, and `sel` is the position of the new key.
pub open spec fn key_renamed(e: crate::vault::Entries, old_key: Seq<char>, new_key: Seq<char>, e3: crate::vault::Entries, sel: usize) -> bool {
    &&& exists|perm: Seq<int>|
        #[trigger] sorted_entries(renamed_entries(e, old_key, new_key), perm)
            && e3 == insert_all(Seq::empty(), permute(renamed_entries(e, old_key, new_key), perm))
    &&& sel == if key_pos(e3, new_key) >= 0 {
        key_pos(e3, new_key) as usize
    } else {
        0
    }
}

/// A key while a vault entry is being edited.
pub open spec fn post_vault_edit_key(s0: App, s1: App, k: KeyInput, effects: Seq<EffectView>) -> bool {
    let e = s0.vault.entries_view();
    let idx = s0.vault_editing->0;
    if k.code == KeyCode::Esc {
        &&& effects.len() == 0
        &&& if s0.vault_edit_field == VaultField::Key && idx < e.len() && e[idx as int].0.len() == 0 {
            let e1 = remove_entry(e, e[idx as int].0);
            &&& s1 == (App {
                vault: s1.vault,
                vault_selected: s1.vault_selected,
                vault_editing: None,
                vault_edit_buffer: s1.vault_edit_buffer,
                ..s0
            })
            &&& s1.vault.path == s0.vault.path
            &&& s1.vault.dirty
            &&& s1.vault.entries_view() == e1
            &&& s1.vault_selected == if s0.vault_selected > 0 && s0.vault_selected >= e1.len() {
                (s0.vault_selected - 1) as usize
            } else {
                s0.vault_selected
            }
            &&& s1.vault_edit_buffer@.len() == 0
        } else {
            s1 == (App { vault_editing: None, vault_edit_buffer: s1.vault_edit_buffer, ..s0 })
                && s1.vault_edit_buffer@.len() == 0
        }
    } else if k.code == KeyCode::Enter {
        post_commit_vault_edit(s0, s1, effects)
    } else if k.code == KeyCode::Backspace {
        effects.len() == 0 && s1 == (App { vault_edit_buffer: s1.vault_edit_buffer, ..s0 })
            && s1.vault_edit_buffer@ == dropped(s0.vault_edit_buffer@)
    } else if k.code is Char {
        effects.len() == 0 && s1 == (App { vault_edit_buffer: s1.vault_edit_buffer, ..s0 })
            && s1.vault_edit_buffer@ == s0.vault_edit_buffer@.push(k.code->Char_0)
    } else {
        s1 == s0 && effects.len() == 0
    }
}

/// A key on the Vault page when no entry is being edited.
pub open spec fn post_vault_browse_key(s0: App, s1: App, k: KeyInput, effects: Seq<EffectView>) -> bool {
    let e = s0.vault.entries_view();
    let len = e.len();
    let sel = s0.vault_selected;
    if is_up(k) {
        effects.len() == 0 && s1 == (App {
            vault_selected: if len > 0 && sel > 0 {
                (sel - 1) as usize
            } else {
                sel
            },
            ..s0
        })
    } else if is_down(k) {
        effects.len() == 0 && s1 == (App {
            vault_selected: if sel + 1 < len {
                (sel + 1) as usize
            } else {
                sel
            },
            ..s0
        })
    } else if k.code == KeyCode::Char('e') || k.code == KeyCode::Enter {
        &&& effects.len() == 0
        &&& match effective_vault_index_of(s0) {
            Some(i) => s1 == (App {
                vault_edit_buffer: s1.vault_edit_buffer,
                vault_edit_field: VaultField::Value,
                vault_editing: Some(i as usize),
                ..s0
            }) && s1.vault_edit_buffer@ == value_or_empty(e, i),
            None => s1 == s0,
        }
    } else if k.code == KeyCode::Char('E') {
        &&& effects.len() == 0
        &&& match effective_vault_index_of(s0) {
            Some(i) => if i < len {
                s1 == (App { open_editor_for: s1.open_editor_for, ..s0 }) && (s1.open_editor_for matches Some(
                    EditorTarget::VaultEntry(key),
                ) && key@ == e[i].0)
            } else {
                s1 == s0
            },
            None => s1 == s0,
        }
    } else if k.code == KeyCode::Char('n') {
        &&& effects.len() == 0
        &&& s1 == (App {
            vault: s1.vault,
            vault_selected: len as usize,
            vault_edit_buffer: s1.vault_edit_buffer,
            vault_edit_field: VaultField::Key,
            vault_editing: Some(len as usize),
            ..s0
        })
        &&& s1.vault.path == s0.vault.path
        &&& s1.vault.dirty == s0.vault.dirty
        &&& s1.vault.entries_view() == insert_entry(e, Seq::empty(), Seq::empty())
        &&& s1.vault_edit_buffer@.len() == 0
    } else if k.code == KeyCode::Char('d') || k.code == KeyCode::Delete {
        match effective_vault_index_of(s0) {
            None => s1 == s0 && effects.len() == 0,
            Some(i) => {
                let e1 = if i < len {
                    remove_entry(e, e[i].0)
                } else {
                    e
                };
                let n = e1.len();
                let nf = count_accepted(s0.filter_query@, entry_keys(e1));
                &&& effects == seq![EffectView::SaveVault]
                &&& s1 == (App {
                    vault: s1.vault,
                    vault_selected: if s0.filter_query@.len() == 0 && sel >= n && sel > 0 {
                        (sel - 1) as usize
                    } else {
                        sel
                    },
                    filter_selected: if s0.filter_query@.len() > 0 && s0.filter_selected >= nf
                        && s0.filter_selected > 0 {
                        (s0.filter_selected - 1) as usize
                    } else {
                        s0.filter_selected
                    },
                    env_var_rows: s1.env_var_rows,
                    env_var_selected: s1.env_var_selected,
                    ..s0
                })
                &&& s1.vault.path == s0.vault.path
                &&& s1.vault.entries_view() == e1
                &&& s1.vault.dirty == if i < len {
                    true
                } else {
                    s0.vault.dirty
                }
                &&& rows_rebuilt(s0.env_var_selected, s1)
            },
        }
    } else if is_back(k) {
        effects.len() == 0 && s1 == (App { sidebar_focused: true, ..s0 })
    } else if k.code == KeyCode::Char('g') {
        effects.len() == 0 && s1 == (App { vault_selected: 0, ..s0 })
    } else if k.code == KeyCode::Char('G') {
        effects.len() == 0 && s1 == (App {
            vault_selected: if len > 0 {
                (len - 1) as usize
            } else {
                sel
            },
            ..s0
        })
    } else {
        s1 == s0 && effects.len() == 0
    }
}

/// The text of settings field `i`.
pub open spec fn settings_field_value(cfg: Config, i: usize) -> Seq<char> {
    if i == 0 {
        cfg.server_url@
    } else if i == 1 {
        cfg.api_key@
    } else if i == 2 {
        cfg.vault_path@
    } else {
        Seq::empty()
    }
}

/// Committing the edit of a setting.
pub open spec fn post_commit_settings(s0: App, s1: App, effects: Seq<EffectView>) -> bool {
    let v = s0.settings_edit_buffer@;
    let sel = s0.settings_selected;
    &&& s1 == (App {
        config: s1.config,
        settings_editing: false,
        settings_edit_buffer: s1.settings_edit_buffer,
        status_message: s1.status_message,
        ..s0
    })
    &&& s1.settings_edit_buffer@.len() == 0
    &&& status_view(s1.status_message) == Some(("Settings saved"@, StatusLevel::Success, STATUS_TICKS))
    &&& if sel == 0 {
        s1.config == (Config { server_url: s1.config.server_url, ..s0.config }) && s1.config.server_url@ == v
    } else if sel == 1 {
        s1.config == (Config { api_key: s1.config.api_key, ..s0.config }) && s1.config.api_key@ == v
    } else if sel == 2 {
        s1.config == (Config { vault_path: s1.config.vault_path, ..s0.config }) && s1.config.vault_path@ == v
    } else {
        s1.config == s0.config
    }
    &&& effects == if sel == 2 && v.len() > 0 {
        seq![EffectView::LoadVault { path: v }, EffectView::SaveConfig]
    } else {
        seq![EffectView::SaveConfig]
    }
}

/// A key on the Settings page.
pub open spec fn post_settings_key(s0: App, s1: App, k: KeyInput, effects: Seq<EffectView>) -> bool {
    let sel = s0.settings_selected;
    if s0.settings_editing {
        if k.code == KeyCode::Esc {
            effects.len() == 0 && s1 == (App {
                settings_editing: false,
                settings_edit_buffer: s1.settings_edit_buffer,
                ..s0
            }) && s1.settings_edit_buffer@.len() == 0
        } else if k.code == KeyCode::Enter {
            post_commit_settings(s0, s1, effects)
        } else if k.code == KeyCode::Backspace {
            effects.len() == 0 && s1 == (App { settings_edit_buffer: s1.settings_edit_buffer, ..s0 })
                && s1.settings_edit_buffer@ == dropped(s0.settings_edit_buffer@)
        } else if k.code is Char {
            effects.len() == 0 && s1 == (App { settings_edit_buffer: s1.settings_edit_buffer, ..s0 })
                && s1.settings_edit_buffer@ == s0.settings_edit_buffer@.push(k.code->Char_0)
        } else {
            s1 == s0 && effects.len() == 0
        }
    } else if is_up(k) {
        effects.len() == 0 && s1 == (App {
            settings_selected: if sel > 0 {
                (sel - 1) as usize
            } else {
                sel
            },
            ..s0
        })
    } else if is_down(k) {
        effects.len() == 0 && s1 == (App {
            settings_selected: if sel + 1 < SETTINGS_FIELD_COUNT {
                (sel + 1) as usize
            } else {
                sel
            },
            ..s0
        })
    } else if k.code == KeyCode::Enter || k.code == KeyCode::Char('e') {
        if sel == 3 {
            &&& effects == seq![EffectView::SaveConfig]
            &&& s1 == (App { config: s1.config, palette: s1.palette, ..s0 })
            &&& s1.config == (Config { theme: next_theme(s0.config.theme), ..s0.config })
            &&& s1.palette.variant_of() == next_theme(s0.config.theme)
        } else {
            effects.len() == 0 && s1 == (App {
                settings_edit_buffer: s1.settings_edit_buffer,
                settings_editing: true,
                ..s0
            }) && s1.settings_edit_buffer@ == settings_field_value(s0.config, sel)
        }
    } else if is_back(k) {
        effects.len() == 0 && s1 == (App { sidebar_focused: true, ..s0 })
    } else if k.code == KeyCode::Char('g') {
        effects.len() == 0 && s1 == (App { settings_selected: 0, ..s0 })
    } else if k.code == KeyCode::Char('G') {
        effects.len() == 0 && s1 == (App { settings_selected: (SETTINGS_FIELD_COUNT - 1) as usize, ..s0 })
    } else {
        s1 == s0 && effects.len() == 0
    }
}

/// A key while the page content has focus.
pub open spec fn post_content_key(s0: App, s1: App, k: KeyInput, effects: Seq<EffectView>) -> bool {
    let filtering = s0.filter_query@.len() > 0;
    let n = count_accepted(s0.filter_query@, page_texts(s0, s0.page));
    if s0.filter_editing {
        post_filter_key(s0, s1, k) && effects.len() == 0
    } else if !in_edit(s0) && (k.code == KeyCode::Char('f') || k.code == KeyCode::Char('/')) {
        s1 == (App { filter_editing: true, ..s0 }) && effects.len() == 0
    } else if !in_edit(s0) && k.code == KeyCode::Char('F') {
        s1 == (App { filter_query: s1.filter_query, filter_selected: 0, ..s0 }) && s1.filter_query@.len()
            == 0 && effects.len() == 0
    } else if filtering && is_up(k) {
        effects.len() == 0 && s1 == (App {
            filter_selected: if s0.filter_selected > 0 {
                (s0.filter_selected - 1) as usize
            } else {
                s0.filter_selected
            },
            ..s0
        })
    } else if filtering && is_down(k) {
        effects.len() == 0 && s1 == (App {
            filter_selected: if s0.filter_selected + 1 < n {
                (s0.filter_selected + 1) as usize
            } else {
                s0.filter_selected
            },
            ..s0
        })
    } else if filtering && !in_edit(s0) && k.code == KeyCode::Char('g') {
        effects.len() == 0 && s1 == (App { filter_selected: 0, ..s0 })
    } else if filtering && !in_edit(s0) && k.code == KeyCode::Char('G') {
        effects.len() == 0 && s1 == (App {
            filter_selected: if n > 0 {
                (n - 1) as usize
            } else {
                s0.filter_selected
            },
            ..s0
        })
    } else {
        match s0.page {
            Page::ProjectList => post_project_key(s0, s1, k, effects),
            Page::EnvVarList => post_env_key(s0, s1, k) && effects.len() == 0,
            Page::Vault => if s0.vault_editing is Some {
                post_vault_edit_key(s0, s1, k, effects)
            } else {
                post_vault_browse_key(s0, s1, k, effects)
            },
            Page::Settings => post_settings_key(s0, s1, k, effects),
        }
    }
}

/// What any key does.
pub open spec fn post_key(s0: App, s1: App, k: KeyInput, effects: Seq<EffectView>) -> bool {
    if s0.sync_confirm is Some {
        if k.code == KeyCode::Enter || k.code == KeyCode::Char('y') {
            post_execute_sync(App { sync_confirm: None, ..s0 }, s1, effects)
        } else if k.code == KeyCode::Esc || k.code == KeyCode::Char('n') {
            s1 == (App { sync_confirm: None, ..s0 }) && effects.len() == 0
        } else {
            s1 == s0 && effects.len() == 0
        }
    } else if s0.add_var_popup is Some {
        post_popup_key(s0, s1, k, effects)
    } else if k.ctrl && k.code == KeyCode::Char('c') {
        s1 == (App { should_quit: true, ..s0 }) && effects.len() == 0
    } else if k.ctrl && k.code == KeyCode::Char('p') {
        post_trigger_fetch(s0, s1, effects)
    } else if k.ctrl && k.code == KeyCode::Char('u') {
        post_trigger_sync(s0, s1) && effects.len() == 0
    } else if !k.ctrl && k.code == KeyCode::Char('q') && !typing(s0) {
        s1 == (App { should_quit: true, ..s0 }) && effects.len() == 0
    } else if k.code == KeyCode::Tab && !in_edit(s0) {
        s1 == (App { sidebar_focused: !s0.sidebar_focused, ..s0 }) && effects.len() == 0
    } else if s0.sidebar_focused {
        post_sidebar_key(s0, s1, k) && effects.len() == 0
    } else {
        post_content_key(s0, s1, k, effects)
    }
}

/// The key reaches the handling of the current page (no popup, global key,
/// sidebar or filter takes it first).
pub open spec fn reaches_page(s: App, k: KeyInput) -> bool {
    let filtering = s.filter_query@.len() > 0;
    &&& s.sync_confirm is None
    &&& s.add_var_popup is None
    &&& !(k.ctrl && (k.code == KeyCode::Char('c') || k.code == KeyCode::Char('p') || k.code
        == KeyCode::Char('u')))
    &&& !(!k.ctrl && k.code == KeyCode::Char('q') && !typing(s))
    &&& !(k.code == KeyCode::Tab && !in_edit(s))
    &&& !s.sidebar_focused
    &&& !s.filter_editing
    &&& !(!in_edit(s) && (k.code == KeyCode::Char('f') || k.code == KeyCode::Char('/') || k.code
        == KeyCode::Char('F')))
    &&& !(filtering && (is_up(k) || is_down(k)))
    &&& !(filtering && !in_edit(s) && (k.code == KeyCode::Char('g') || k.code == KeyCode::Char('G')))
}

/// While the sync confirmation is shown it takes every key: Enter or `y`
/// runs the sync, Esc or `n` cancels it without syncing, and any other key
/// changes nothing.
pub proof fn law_confirmation_takes_keys(s0: App, s1: App, k: KeyInput, effects: Seq<EffectView>)
    requires
        post_key(s0, s1, k, effects),
        s0.sync_confirm is Some,
    ensures
        (k.code == KeyCode::Enter || k.code == KeyCode::Char('y')) ==> post_execute_sync(
            App { sync_confirm: None, ..s0 },
            s1,
            effects,
        ),
        (k.code == KeyCode::Esc || k.code == KeyCode::Char('n')) ==> s1 == (App { sync_confirm: None, ..s0 })
            && effects.len() == 0,
        !(k.code == KeyCode::Enter || k.code == KeyCode::Char('y') || k.code == KeyCode::Esc || k.code
            == KeyCode::Char('n')) ==> s1 == s0 && effects.len() == 0,
{
}

/// Ctrl+U never writes to the server by itself: with no popup open it only
/// prepares the confirmation (or reports that there is nothing to sync).
pub proof fn law_sync_waits_for_confirmation(s0: App, s1: App, k: KeyInput, effects: Seq<EffectView>)
    requires
        post_key(s0, s1, k, effects),
        s0.sync_confirm is None,
        s0.add_var_popup is None,
        k.ctrl,
        k.code == KeyCode::Char('u'),
    ensures
        effects.len() == 0,
        post_trigger_sync(s0, s1),
{
}

/// The popup of the Env Vars page closes on any key that reaches the page,
/// and that key does nothing else.
pub proof fn law_detail_popup_closes(s0: App, s1: App, k: KeyInput, effects: Seq<EffectView>)
    requires
        post_key(s0, s1, k, effects),
        s0.env_var_detail is Some,
        s0.page == Page::EnvVarList,
        reaches_page(s0, k),
    ensures
        s1 == (App { env_var_detail: None, ..s0 }),
        effects.len() == 0,
{
}

/// The project cursor is on a project, and a selected variable is one of
/// that project's, which is expanded.
pub open spec fn nav_valid(s: App) -> bool {
    let k = s.project_list_selected;
    &&& s.projects@.len() > 0
    &&& k < s.projects@.len()
    &&& (s.project_var_selected matches Some(i) ==> i < s.projects@[k as int].env_vars@.len()
        && s.project_expanded@.contains(s.projects@[k as int].guid@))
}

/// Moving up or down in the project list keeps the cursor on a project and
/// on a visible variable of it, and moves nothing but the cursor.
pub proof fn law_project_nav_stays_valid(s0: App, s1: App, k: KeyInput, effects: Seq<EffectView>)
    requires
        post_key(s0, s1, k, effects),
        reaches_project_list(s0, k),
        is_up(k) || is_down(k),
        nav_valid(s0),
    ensures
        nav_valid(s1),
        effects.len() == 0,
        s1 == (App {
            project_list_selected: s1.project_list_selected,
            project_var_selected: s1.project_var_selected,
            ..s0
        }),
{
    assert(!(s0.filter_query@.len() > 0 && (is_up(k) || is_down(k))));
    assert(post_project_key(s0, s1, k, effects));
}

/// The key reaches the project list's own handling.
pub open spec fn reaches_project_list(s: App, k: KeyInput) -> bool {
    &&& s.sync_confirm is None
    &&& s.add_var_popup is None
    &&& !(k.ctrl && (k.code == KeyCode::Char('c') || k.code == KeyCode::Char('p') || k.code
        == KeyCode::Char('u')))
    &&& !(!k.ctrl && k.code == KeyCode::Char('q') && !typing(s))
    &&& !(k.code == KeyCode::Tab && !in_edit(s))
    &&& !s.sidebar_focused
    &&& !s.filter_editing
    &&& !(s.filter_query@.len() > 0 && (is_up(k) || is_down(k)))
    &&& s.page == Page::ProjectList
}

/// Moving the project cursor with the selection past the end of the list:
/// the cases in which the project list would index outside the list.
pub open spec fn key_out_of_range(s: App, k: KeyInput) -> bool {
    &&& reaches_project_list(s, k)
    &&& s.projects@.len() > 0
    &&& ((is_up(k) && s.project_var_selected is None && s.project_list_selected > 0
        && s.project_list_selected - 1 >= s.projects@.len()) || (is_down(k)
        && s.project_list_selected >= s.projects@.len()))
}

impl App {
    /// Whether `key` would move the project cursor from a selection past the
    /// end of the list (which `handle_key` does not accept).
    pub fn key_would_panic(&self, key: KeyInput) -> (r: bool)
        ensures
            r == key_out_of_range(*self, key),
    {
        let typing = (!self.sidebar_focused && self.filter_editing) || self.vault_editing.is_some()
            || self.settings_editing;
        let editing = self.vault_editing.is_some() || self.settings_editing;
        let up = key_is_up(key);
        let down = key_is_down(key);
        let reaches = self.sync_confirm.is_none() && self.add_var_popup.is_none() && !(key.ctrl && (
        key.code == KeyCode::Char('c') || key.code == KeyCode::Char('p') || key.code == KeyCode::Char(
            'u',
        ))) && !(!key.ctrl && key.code == KeyCode::Char('q') && !typing) && !(key.code == KeyCode::Tab
            && !editing) && !self.sidebar_focused && !self.filter_editing && !(!self.filter_query.as_str().is_empty()
            && (up || down)) && self.page == Page::ProjectList;
        let count = self.projects.len();
        reaches && count > 0 && ((up && self.project_var_selected.is_none()
            && self.project_list_selected > 0 && self.project_list_selected - 1 >= count) || (down
            && self.project_list_selected >= count))
    }

    fn handle_filter_key(&mut self, key: KeyInput)
        ensures
            post_filter_key(*old(self), *final(self), key),
    {
        match key.code {
            KeyCode::Esc | KeyCode::Enter => {
                self.filter_editing = false;
            },
            KeyCode::Backspace => {
                let _ = pop_char(&mut self.filter_query);
                self.filter_selected = 0;
            },
            KeyCode::Char(c) => {
                push_char(&mut self.filter_query, c);
                self.filter_selected = 0;
            },
            _ => {},
        }
    }

    fn handle_add_var_popup_key(&mut self, key: KeyInput) -> (effects: Vec<Effect>)
        requires
            old(self).add_var_popup is Some,
        ensures
            post_popup_key(*old(self), *final(self), key, effects_view(effects@)),
    {
        match key.code {
            KeyCode::Esc => {
                self.add_var_popup = None;
                Vec::new()
            },
            KeyCode::Enter => self.commit_add_var(),
            KeyCode::Up => {
                let mut p = self.add_var_popup.take().unwrap();
                if p.selected > 0 {
                    p.selected -= 1;
                }
                self.add_var_popup = Some(p);
                Vec::new()
            },
            KeyCode::Down => {
                let count = self.add_var_suggestions().len();
                let mut p = self.add_var_popup.take().unwrap();
                if count > 0 && p.selected < count - 1 {
                    p.selected += 1;
                }
                self.add_var_popup = Some(p);
                Vec::new()
            },
            KeyCode::Backspace => {
                let mut p = self.add_var_popup.take().unwrap();
                let _ = pop_char(&mut p.query);
                p.selected = 0;
                self.add_var_popup = Some(p);
                Vec::new()
            },
            KeyCode::Char(c) => {
                let mut p = self.add_var_popup.take().unwrap();
                push_char(&mut p.query, c);
                p.selected = 0;
                self.add_var_popup = Some(p);
                Vec::new()
            },
            _ => Vec::new(),
        }
    }

    /// Clears the filter when the page changes.
    fn switch_page(&mut self, page: Page)
        ensures
            page_switched(*old(self), *final(self), page),
    {
        self.page = page;
        clear_string(&mut self.filter_query);
        self.filter_editing = false;
        self.filter_selected = 0;
    }

    fn handle_sidebar_key(&mut self, key: KeyInput)
        ensures
            post_sidebar_key(*old(self), *final(self), key),
    {
        let current = self.page.index();
        if key_is_up(key) {
            if current > 0 {
                self.switch_page(Page::from_index(current - 1));
            }
        } else if key_is_down(key) {
            if current < 3 {
                self.switch_page(Page::from_index(current + 1));
            }
        } else if key.code == KeyCode::Enter || key.code == KeyCode::Right || key.code == KeyCode::Char('l') {
            self.sidebar_focused = false;
        }
    }

    fn handle_project_list_key(&mut self, key: KeyInput) -> (effects: Vec<Effect>)
        requires
            old(self).projects@.len() > 0 && is_up(key) && old(self).project_var_selected is None
                && old(self).project_list_selected > 0 ==> old(self).project_list_selected - 1 < old(
                self,
            ).projects@.len(),
            old(self).projects@.len() > 0 && is_down(key) ==> old(self).project_list_selected < old(
                self,
            ).projects@.len(),
        ensures
            post_project_key(*old(self), *final(self), key, effects_view(effects@)),
    {
        let count = self.projects.len();
        if key_is_up(key) {
            if count == 0 {
                return Vec::new();
            }
            match self.project_var_selected {
                Some(v) => {
                    self.project_var_selected = if v > 0 {
                        Some(v - 1)
                    } else {
                        None
                    };
                },
                None => {
                    if self.project_list_selected > 0 {
                        self.project_list_selected -= 1;
                        let prev = &self.projects[self.project_list_selected];
                        if self.project_expanded.contains(&prev.guid) && prev.env_vars.len() > 0 {
                            self.project_var_selected = Some(prev.env_vars.len() - 1);
                        }
                    }
                },
            }
            Vec::new()
        } else if key_is_down(key) {
            if count == 0 {
                return Vec::new();
            }
            let sel = self.project_list_selected;
            match self.project_var_selected {
                Some(v) => {
                    let var_count = self.projects[sel].env_vars.len();
                    if var_count > 0 && v < var_count - 1 {
                        self.project_var_selected = Some(v + 1);
                    } else if sel < count - 1 {
                        self.project_list_selected = sel + 1;
                        self.project_var_selected = None;
                    }
                },
                None => {
                    let project = &self.projects[sel];
                    if self.project_expanded.contains(&project.guid) && project.env_vars.len() > 0 {
                        self.project_var_selected = Some(0);
                    } else if sel < count - 1 {
                        self.project_list_selected = sel + 1;
                    }
                },
            }
            Vec::new()
        } else if key.code == KeyCode::Enter || key.code == KeyCode::Char(' ') {
            // only the project row expands or collapses
            if self.project_var_selected.is_none() && self.project_list_selected < count {
                let guid = self.projects[self.project_list_selected].guid.clone();
                if self.project_expanded.contains(&guid) {
                    let _ = self.project_expanded.remove(&guid);
                    self.project_var_selected = None;
                } else {
                    let _ = self.project_expanded.insert(guid);
                }
            }
            Vec::new()
        } else if key.code == KeyCode::Char('x') {
            if self.project_list_selected < count {
                let sel = self.project_list_selected;
                let guid = self.projects[sel].guid.clone();
                match self.project_var_selected {
                    Some(v) => {
                        // toggle the variable on the project's blacklist
                        if v < self.projects[sel].env_vars.len() {
                            let name = self.projects[sel].env_vars[v].name.clone();
                            self.config.excluded_vars.toggle(guid, name);
                        }
                    },
                    None => {
                        // toggle the project on the whitelist
                        self.config.toggle_included(guid);
                    },
                }
                let mut effects: Vec<Effect> = Vec::new();
                effects.push(Effect::SaveConfig);
                assert(effects_view(effects@) =~= seq![EffectView::SaveConfig]);
                effects
            } else {
                Vec::new()
            }
        } else if key.code == KeyCode::Char('d') {
            if self.project_var_selected.is_some() {
                self.trigger_delete_var()
            } else {
                Vec::new()
            }
        } else if key.code == KeyCode::Char('a') {
            self.trigger_add_var();
            Vec::new()
        } else if key_is_back(key) {
            self.sidebar_focused = true;
            Vec::new()
        } else if key.code == KeyCode::Char('g') {
            if count > 0 {
                self.project_list_selected = 0;
                self.project_var_selected = None;
            }
            Vec::new()
        } else if key.code == KeyCode::Char('G') {
            if count > 0 {
                self.project_list_selected = count - 1;
                self.project_var_selected = None;
            }
            Vec::new()
        } else {
            Vec::new()
        }
    }

    fn handle_env_var_list_key(&mut self, key: KeyInput)
        ensures
            post_env_key(*old(self), *final(self), key),
    {
        // any key closes the detail popup
        if self.env_var_detail.is_some() {
            self.env_var_detail = None;
            return ;
        }
        let count = self.env_var_rows.len();
        let sel = self.env_var_selected;
        if key_is_up(key) {
            if count > 0 && sel > 0 {
                self.env_var_selected = sel - 1;
            }
        } else if key_is_down(key) {
            if count > 0 && sel < count - 1 {
                self.env_var_selected = sel + 1;
            }
        } else if key.code == KeyCode::Char(' ') || key.code == KeyCode::Enter {
            if sel < count {
                self.env_var_detail = Some(self.env_var_rows[sel].key.clone());
            }
        } else if key.code == KeyCode::Char('e') || key.code == KeyCode::Char('E') {
            if sel < count {
                self.open_editor_for = Some(EditorTarget::VaultEntry(self.env_var_rows[sel].key.clone()));
            }
        } else if key_is_back(key) {
            self.sidebar_focused = true;
        } else if key.code == KeyCode::Char('g') {
            self.env_var_selected = 0;
        } else if key.code == KeyCode::Char('G') {
            if count > 0 {
                self.env_var_selected = count - 1;
            }
        }
    }

    /// Ends the edit of a vault entry: a value is stored; a typed key
    /// replaces the placeholder key, the vault is re-sorted and the value of
    /// the new key is edited next; an empty key drops the placeholder.
    fn commit_vault_edit(&mut self) -> (effects: Vec<Effect>)
        ensures
            post_commit_vault_edit(*old(self), *final(self), effects_view(effects@)),
    {
        let idx = match self.vault_editing {
            Some(i) => i,
            None => return Vec::new(),
        };
        let new_value = self.vault_edit_buffer.clone();
        let ghost e = self.vault.entries_view();
        match self.vault_edit_field {
            VaultField::Value => {
                if let Some(key) = self.vault.key_at(idx) {
                    self.vault.set(key, new_value);
                    self.vault.dirty = true;
                }
            },
            VaultField::Key => {
                if let Some(old_key) = self.vault.key_at(idx) {
                    let old_val = match self.vault.get(old_key.as_str()) {
                        Some(v) => owned(v),
                        None => String::new(),
                    };
                    proof {
                        crate::vault::lemma_key_pos(e, old_key@);
                    }
                    self.vault.remove_key(old_key.as_str());
                    if !new_value.as_str().is_empty() {
                        let nv = new_value.clone();
                        self.vault.set(new_value, old_val);
                        self.vault.dirty = true;
                        let ghost renamed = self.vault.entries_view();
                        self.vault.sort();
                        let new_idx = match self.vault.position(nv.as_str()) {
                            Some(i) => i,
                            None => 0,
                        };
                        self.vault_selected = new_idx;
                        clear_string(&mut self.vault_edit_buffer);
                        self.vault_edit_field = VaultField::Value;
                        self.vault_editing = Some(new_idx);
                        assert(key_renamed(e, e[idx as int].0, old(self).vault_edit_buffer@, self.vault.entries_view(), self.vault_selected)) by {
                            assert(renamed == renamed_entries(e, e[idx as int].0, old(self).vault_edit_buffer@));
                            let perm = choose|perm: Seq<int>| #[trigger] sorted_entries(renamed, perm)
                                && self.vault.entries_view() == insert_all(Seq::empty(), permute(renamed, perm));
                            assert(sorted_entries(renamed_entries(e, e[idx as int].0, old(self).vault_edit_buffer@), perm));
                        }
                        let r: Vec<Effect> = Vec::new();
                        assert(effects_view(r@).len() == 0);
                        return r;
                    } else {
                        self.vault.dirty = true;
                    }
                }
            },
        }
        self.vault_editing = None;
        clear_string(&mut self.vault_edit_buffer);
        self.rebuild_env_var_rows();
        let mut effects: Vec<Effect> = Vec::new();
        effects.push(Effect::SaveVault);
        assert(effects_view(effects@) =~= seq![EffectView::SaveVault]);
        effects
    }

    fn handle_vault_edit_key(&mut self, key: KeyInput) -> (effects: Vec<Effect>)
        requires
            old(self).vault_editing is Some,
        ensures
            post_vault_edit_key(*old(self), *final(self), key, effects_view(effects@)),
    {
        match key.code {
            KeyCode::Esc => {
                // cancelling a new entry whose key is still empty drops it
                if self.vault_edit_field == VaultField::Key {
                    if let Some(idx) = self.vault_editing {
                        let empty_key = match self.vault.key_at(idx) {
                            Some(k) => k.as_str().is_empty(),
                            None => false,
                        };
                        if empty_key {
                            self.vault.remove_at(idx);
                            if self.vault_selected > 0 && self.vault_selected >= self.vault.len() {
                                self.vault_selected -= 1;
                            }
                        }
                    }
                }
                self.vault_editing = None;
                clear_string(&mut self.vault_edit_buffer);
                Vec::new()
            },
            KeyCode::Enter => self.commit_vault_edit(),
            KeyCode::Backspace => {
                let _ = pop_char(&mut self.vault_edit_buffer);
                Vec::new()
            },
            KeyCode::Char(c) => {
                push_char(&mut self.vault_edit_buffer, c);
                Vec::new()
            },
            _ => Vec::new(),
        }
    }

    fn handle_vault_browse_key(&mut self, key: KeyInput) -> (effects: Vec<Effect>)
        requires
            old(self).vault_editing is None,
            old(self).page == Page::Vault,
        ensures
            post_vault_browse_key(*old(self), *final(self), key, effects_view(effects@)),
    {
        let entries_len = self.vault.len();
        let sel = self.vault_selected;
        if key_is_up(key) {
            if entries_len > 0 && sel > 0 {
                self.vault_selected = sel - 1;
            }
            Vec::new()
        } else if key_is_down(key) {
            if entries_len > 0 && sel < entries_len - 1 {
                self.vault_selected = sel + 1;
            }
            Vec::new()
        } else if key.code == KeyCode::Char('e') || key.code == KeyCode::Enter {
            if let Some(idx) = self.effective_vault_index() {
                let value = match self.vault.value_at(idx) {
                    Some(v) => v,
                    None => String::new(),
                };
                self.vault_edit_buffer = value;
                self.vault_edit_field = VaultField::Value;
                self.vault_editing = Some(idx);
            }
            Vec::new()
        } else if key.code == KeyCode::Char('E') {
            if let Some(idx) = self.effective_vault_index() {
                if let Some(k) = self.vault.key_at(idx) {
                    self.open_editor_for = Some(EditorTarget::VaultEntry(k));
                }
            }
            Vec::new()
        } else if key.code == KeyCode::Char('n') {
            // a blank entry at the end, with its key being edited
            self.vault.set(String::new(), String::new());
            self.vault_selected = entries_len;
            clear_string(&mut self.vault_edit_buffer);
            self.vault_edit_field = VaultField::Key;
            self.vault_editing = Some(entries_len);
            Vec::new()
        } else if key.code == KeyCode::Char('d') || key.code == KeyCode::Delete {
            match self.effective_vault_index() {
                Some(idx) => {
                    self.vault.remove_at(idx);
                    let new_len = self.vault.len();
                    if self.filter_query.as_str().is_empty() {
                        if self.vault_selected >= new_len && self.vault_selected > 0 {
                            self.vault_selected -= 1;
                        }
                    } else {
                        let new_filtered = self.filtered_count();
                        if self.filter_selected >= new_filtered && self.filter_selected > 0 {
                            self.filter_selected -= 1;
                        }
                    }
                    self.rebuild_env_var_rows();
                    let mut effects: Vec<Effect> = Vec::new();
                    effects.push(Effect::SaveVault);
                    assert(effects_view(effects@) =~= seq![EffectView::SaveVault]);
                    effects
                },
                None => Vec::new(),
            }
        } else if key_is_back(key) {
            self.sidebar_focused = true;
            Vec::new()
        } else if key.code == KeyCode::Char('g') {
            self.vault_selected = 0;
            Vec::new()
        } else if key.code == KeyCode::Char('G') {
            if entries_len > 0 {
                self.vault_selected = entries_len - 1;
            }
            Vec::new()
        } else {
            Vec::new()
        }
    }

    /// Ends the edit of a setting; a new vault path loads that vault.
    fn commit_settings_edit(&mut self) -> (effects: Vec<Effect>)
        ensures
            post_commit_settings(*old(self), *final(self), effects_view(effects@)),
    {
        let value = self.settings_edit_buffer.clone();
        let mut effects: Vec<Effect> = Vec::new();
        if self.settings_selected == 0 {
            self.config.server_url = value;
        } else if self.settings_selected == 1 {
            self.config.api_key = value;
        } else if self.settings_selected == 2 {
            let load = !value.as_str().is_empty();
            let path = value.clone();
            self.config.vault_path = value;
            if load {
                effects.push(Effect::LoadVault { path });
                assert(effects_view(effects@) =~= seq![EffectView::LoadVault { path: old(self).settings_edit_buffer@ }]);
            }
        }
        let ghost before = effects@;
        effects.push(Effect::SaveConfig);
        assert(effects_view(effects@) =~= effects_view(before).push(EffectView::SaveConfig));
        assert(effects_view(effects@) =~= if old(self).settings_selected == 2 && old(self).settings_edit_buffer@.len() > 0 {
            seq![EffectView::LoadVault { path: old(self).settings_edit_buffer@ }, EffectView::SaveConfig]
        } else {
            seq![EffectView::SaveConfig]
        });
        self.settings_editing = false;
        clear_string(&mut self.settings_edit_buffer);
        self.set_status(owned("Settings saved"), StatusLevel::Success);
        effects
    }

    fn handle_settings_key(&mut self, key: KeyInput) -> (effects: Vec<Effect>)
        ensures
            post_settings_key(*old(self), *final(self), key, effects_view(effects@)),
    {
        if self.settings_editing {
            match key.code {
                KeyCode::Esc => {
                    self.settings_editing = false;
                    clear_string(&mut self.settings_edit_buffer);
                    Vec::new()
                },
                KeyCode::Enter => self.commit_settings_edit(),
                KeyCode::Backspace => {
                    let _ = pop_char(&mut self.settings_edit_buffer);
                    Vec::new()
                },
                KeyCode::Char(c) => {
                    push_char(&mut self.settings_edit_buffer, c);
                    Vec::new()
                },
                _ => Vec::new(),
            }
        } else {
            let sel = self.settings_selected;
            if key_is_up(key) {
                if sel > 0 {
                    self.settings_selected = sel - 1;
                }
                Vec::new()
            } else if key_is_down(key) {
                if sel < SETTINGS_FIELD_COUNT - 1 {
                    self.settings_selected = sel + 1;
                }
                Vec::new()
            } else if key.code == KeyCode::Enter || key.code == KeyCode::Char('e') {
                if sel == 3 {
                    // the theme row cycles through the themes
                    let next = self.config.theme.next();
                    self.config.theme = next;
                    self.palette = Palette::new(next);
                    let mut effects: Vec<Effect> = Vec::new();
                    effects.push(Effect::SaveConfig);
                    assert(effects_view(effects@) =~= seq![EffectView::SaveConfig]);
                    effects
                } else {
                    let current = if sel == 0 {
                        self.config.server_url.clone()
                    } else if sel == 1 {
                        self.config.api_key.clone()
                    } else if sel == 2 {
                        self.config.vault_path.clone()
                    } else {
                        String::new()
                    };
                    self.settings_edit_buffer = current;
                    self.settings_editing = true;
                    Vec::new()
                }
            } else if key_is_back(key) {
                self.sidebar_focused = true;
                Vec::new()
            } else if key.code == KeyCode::Char('g') {
                self.settings_selected = 0;
                Vec::new()
            } else if key.code == KeyCode::Char('G') {
                self.settings_selected = SETTINGS_FIELD_COUNT - 1;
                Vec::new()
            } else {
                Vec::new()
            }
        }
    }

    fn handle_content_key(&mut self, key: KeyInput) -> (effects: Vec<Effect>)
        requires
            !old(self).sidebar_focused,
            !key_out_of_range(*old(self), key),
            old(self).sync_confirm is None,
            old(self).add_var_popup is None,
            !(key.ctrl && (key.code == KeyCode::Char('c') || key.code == KeyCode::Char('p') || key.code
                == KeyCode::Char('u'))),
            !(!key.ctrl && key.code == KeyCode::Char('q') && !typing(*old(self))),
            !(key.code == KeyCode::Tab && !in_edit(*old(self))),
        ensures
            post_content_key(*old(self), *final(self), key, effects_view(effects@)),
    {
        if self.filter_editing {
            self.handle_filter_key(key);
            return Vec::new();
        }
        let in_edit_mode = self.vault_editing.is_some() || self.settings_editing;
        if !in_edit_mode {
            if key.code == KeyCode::Char('f') || key.code == KeyCode::Char('/') {
                self.filter_editing = true;
                return Vec::new();
            }
            if key.code == KeyCode::Char('F') {
                clear_string(&mut self.filter_query);
                self.filter_selected = 0;
                return Vec::new();
            }
        }
        if !self.filter_query.as_str().is_empty() {
            if key_is_up(key) {
                if self.filter_selected > 0 {
                    self.filter_selected -= 1;
                }
                return Vec::new();
            }
            if key_is_down(key) {
                let count = self.filtered_count();
                if count > 0 && self.filter_selected < count - 1 {
                    self.filter_selected += 1;
                }
                return Vec::new();
            }
            if !in_edit_mode && key.code == KeyCode::Char('g') {
                self.filter_selected = 0;
                return Vec::new();
            }
            if !in_edit_mode && key.code == KeyCode::Char('G') {
                let count = self.filtered_count();
                if count > 0 {
                    self.filter_selected = count - 1;
                }
                return Vec::new();
            }
        }
        match self.page {
            Page::ProjectList => self.handle_project_list_key(key),
            Page::EnvVarList => {
                self.handle_env_var_list_key(key);
                Vec::new()
            },
            Page::Vault => {
                if self.vault_editing.is_some() {
                    self.handle_vault_edit_key(key)
                } else {
                    self.handle_vault_browse_key(key)
                }
            },
            Page::Settings => self.handle_settings_key(key),
        }
    }

    /// Reacts to one key press.
    pub fn handle_key(&mut self, key: KeyInput) -> (effects: Vec<Effect>)
        requires
            !key_out_of_range(*old(self), key),
        ensures
            post_key(*old(self), *final(self), key, effects_view(effects@)),
    {
        // the sync confirmation takes every key
        if self.sync_confirm.is_some() {
            if key.code == KeyCode::Enter || key.code == KeyCode::Char('y') {
                self.sync_confirm = None;
                return self.execute_sync();
            } else if key.code == KeyCode::Esc || key.code == KeyCode::Char('n') {
                self.sync_confirm = None;
            }
            return Vec::new();
        }
        // so does the add-var popup
        if self.add_var_popup.is_some() {
            return self.handle_add_var_popup_key(key);
        }
        if key.ctrl {
            if key.code == KeyCode::Char('c') {
                self.should_quit = true;
                return Vec::new();
            }
            if key.code == KeyCode::Char('p') {
                return self.trigger_fetch();
            }
            if key.code == KeyCode::Char('u') {
                self.trigger_sync();
                return Vec::new();
            }
        }
        let editing = self.vault_editing.is_some() || self.settings_editing;
        let typing = (!self.sidebar_focused && self.filter_editing) || editing;
        if !key.ctrl && key.code == KeyCode::Char('q') && !typing {
            self.should_quit = true;
            return Vec::new();
        }
        if key.code == KeyCode::Tab && !editing {
            self.sidebar_focused = !self.sidebar_focused;
            return Vec::new();
        }
        if self.sidebar_focused {
            self.handle_sidebar_key(key);
            Vec::new()
        } else {
            self.handle_content_key(key)
        }
    }

    /// Reacts to a terminal event; only key presses do anything.
    pub fn handle_crossterm_event(&mut self, event: InputEvent) -> (effects: Vec<Effect>)
        requires
            event matches InputEvent::Key(k) ==> !key_out_of_range(*old(self), k),
        ensures
            match event {
                InputEvent::Key(k) => post_key(*old(self), *final(self), k, effects_view(effects@)),
                InputEvent::Other => *final(self) == *old(self) && effects@.len() == 0,
            },
    {
        match event {
            InputEvent::Key(k) => self.handle_key(k),
            InputEvent::Other => Vec::new(),
        }
    }
}

} // verus!
