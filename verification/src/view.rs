//! What the screen shows, computed from the state: each page, the sidebar,
//! the status line and the popups become lines of text with a style role
//! (and, for the popups, a rectangle), which the program draws as they are.
use vstd::prelude::*;
use vstd::utf8::encode_utf8;
use crate::app::{display_name, page_at, spinner_glyph, App, LoadState, Page, ProjectEntry, StatusLevel, VaultField, SPINNER_FRAME_COUNT};
use crate::theme::ThemeVariant;
use crate::filtering::{add_var_suggestions_of, count_accepted, entry_keys, page_texts, project_names};
use crate::model::{contains_string, strs_view, var_names};
use crate::text::{clip_bytes, clip_to_bytes, concat2, concat3, str_eq, decimal, decimal_string, first_chars, owned, prefix_chars, push_char, push_str, trim_trailing_slashes, without_trailing_slashes};
use crate::vault::lookup;
use crate::theme::StyleRole;

verus! {

// ---------------------------------------------------------------------------
// Lines
// ---------------------------------------------------------------------------

/// A line of text drawn in one style.
pub struct StyledLine {
    pub text: String,
    pub role: StyleRole,
}

pub open spec fn line_view(l: StyledLine) -> (Seq<char>, StyleRole) {
    (l.text@, l.role)
}

pub open spec fn lines_view(s: Seq<StyledLine>) -> Seq<(Seq<char>, StyleRole)> {
    s.map_values(|l: StyledLine| line_view(l))
}

fn line(text: String, role: StyleRole) -> (l: StyledLine)
    ensures
        line_view(l) == (text@, role),
{
    StyledLine { text, role }
}

/// Appends `l` to `out`.
fn push_line(out: &mut Vec<StyledLine>, l: StyledLine)
    ensures
        lines_view(final(out)@) == lines_view(old(out)@).push(line_view(l)),
{
    let ghost before = out@;
    out.push(l);
    assert(lines_view(out@) =~= lines_view(before).push(line_view(l)));
}

/// The border of a pane: accented when the pane has the focus.
pub fn border_role(focused: bool) -> (r: StyleRole)
    ensures
        r == if focused {
            StyleRole::Accent
        } else {
            StyleRole::Border
        },
{
    if focused {
        StyleRole::Accent
    } else {
        StyleRole::Border
    }
}

// ---------------------------------------------------------------------------
// Masked values
// ---------------------------------------------------------------------------

/// The most bullets a masked value shows.
pub const MASK_MAX: usize = 32;

/// `n` bullets.
pub open spec fn bullets(n: nat) -> Seq<char> {
    Seq::new(n, |i: int| '●')
}

/// A secret as it is shown: one bullet per byte of its text, at most
/// `MASK_MAX` of them (nothing for an empty value).
pub open spec fn masked(v: Seq<char>) -> Seq<char> {
    let n = byte_len(v);
    bullets(if n < MASK_MAX { n } else { MASK_MAX as nat })
}

/// The length in bytes of the text `v`, as `str::len` gives it.
pub open spec fn byte_len(v: Seq<char>) -> nat {
    (encode_utf8(v).len() as usize) as nat
}

pub fn mask_value(v: &str) -> (r: String)
    ensures
        r@ == masked(v@),
{
    let len = v.len();
    let n = if len < MASK_MAX {
        len
    } else {
        MASK_MAX
    };
    let mut r = String::new();
    let mut i: usize = 0;
    while i < n
        invariant
            i <= n,
            r@ == bullets(i as nat),
        decreases n - i,
    {
        push_char(&mut r, '●');
        i += 1;
        assert(r@ =~= bullets(i as nat));
    }
    assert(r@ =~= masked(v@));
    r
}

// ---------------------------------------------------------------------------
// Sidebar
// ---------------------------------------------------------------------------

/// The marker in front of a sidebar entry.
pub open spec fn sidebar_arrow(current: bool, focused: bool) -> Seq<char> {
    if current && focused {
        "▶"@
    } else if current {
        "·"@
    } else {
        " "@
    }
}

pub open spec fn page_label(p: Page) -> Seq<char> {
    match p {
        Page::ProjectList => "Projects"@,
        Page::EnvVarList => "Env Vars"@,
        Page::Vault => "Vault"@,
        Page::Settings => "Settings"@,
    }
}

/// Sidebar entry `i`: marker and label, highlighted for the current page.
pub open spec fn sidebar_line(app: App, i: int) -> (Seq<char>, StyleRole) {
    let p = page_at(i);
    let current = p == app.page;
    (
        " "@ + sidebar_arrow(current, app.sidebar_focused) + " "@ + page_label(p),
        if current {
            StyleRole::Selected
        } else {
            StyleRole::Normal
        },
    )
}

// ---------------------------------------------------------------------------
// Status line
// ---------------------------------------------------------------------------

/// The bottom line: a status message, or the key hints of the focused pane.
pub enum StatusLine {
    Message { text: String, role: StyleRole },
    Hints { spinner: String, hints: &'static str },
}

pub open spec fn level_role(level: StatusLevel) -> StyleRole {
    match level {
        StatusLevel::Info => StyleRole::Normal,
        StatusLevel::Success => StyleRole::Success,
        StatusLevel::Error => StyleRole::Error,
    }
}

/// The key hints for the focused pane.
pub open spec fn hints_for(app: App) -> Seq<char> {
    if app.sidebar_focused {
        "Tab:Content  ↑↓:Nav  Ctrl+P:Refresh  Ctrl+C:Quit"@
    } else {
        match app.page {
            Page::ProjectList => "Tab:Sidebar  ↑↓:Nav  Enter/Space:Expand  x:Toggle  a:AddVar  d:Del  ←/Esc:Sidebar  Ctrl+P:Refresh  Ctrl+C:Quit"@,
            Page::EnvVarList => "Tab:Sidebar  ↑↓:Nav  e/E:Editor  ←/Esc:Sidebar  Ctrl+C:Quit"@,
            Page::Vault => if app.vault_editing is Some {
                "Enter:Save  Esc:Cancel"@
            } else {
                "Tab:Sidebar  ↑↓:Nav  e/Enter:Edit  E:Editor  n:New  d:Del  ←/Esc:Sidebar  Ctrl+U:Sync  Ctrl+C:Quit"@
            },
            Page::Settings => if app.settings_editing {
                "Enter:Confirm  Esc:Cancel"@
            } else {
                "Tab:Sidebar  ↑↓:Nav  Enter/e:Edit  ←/Esc:Sidebar  Ctrl+C:Quit"@
            },
        }
    }
}

/// The spinner slot of the hints: the spinner while projects load.
pub open spec fn spinner_slot(app: App) -> Seq<char> {
    match app.load_state {
        LoadState::Loading => spinner_glyph(app.spinner_frame as int) + " "@,
        _ => "  "@,
    }
}

// ---------------------------------------------------------------------------
// Popup geometry
// ---------------------------------------------------------------------------

/// A rectangle of the terminal, in cells.
#[derive(Debug, Clone, Copy, PartialEq, Eq, Structural)]
pub struct Area {
    pub x: u16,
    pub y: u16,
    pub width: u16,
    pub height: u16,
}

pub open spec fn sat_sub(a: int, b: int) -> int {
    if a > b {
        a - b
    } else {
        0
    }
}

pub open spec fn min_int(a: int, b: int) -> int {
    if a < b {
        a
    } else {
        b
    }
}

/// A `w` by `h` box centred in `area`, cut to the area's size.
pub open spec fn centered_spec(area: Area, w: int, h: int) -> Area {
    Area {
        x: (area.x + sat_sub(area.width as int, w) / 2) as u16,
        y: (area.y + sat_sub(area.height as int, h) / 2) as u16,
        width: min_int(w, area.width as int) as u16,
        height: min_int(h, area.height as int) as u16,
    }
}

pub fn centered(area: Area, w: u16, h: u16) -> (r: Area)
    requires
        area.x + area.width <= u16::MAX,
        area.y + area.height <= u16::MAX,
    ensures
        r == centered_spec(area, w as int, h as int),
{
    let dx = area.width.saturating_sub(w) / 2;
    let dy = area.height.saturating_sub(h) / 2;
    Area {
        x: area.x + dx,
        y: area.y + dy,
        width: if w < area.width {
            w
        } else {
            area.width
        },
        height: if h < area.height {
            h
        } else {
            area.height
        },
    }
}

// ---------------------------------------------------------------------------
// Project list
// ---------------------------------------------------------------------------

/// A list page: its title, its lines, and the line under the cursor (none
/// for an empty list).
pub struct ListView {
    pub title: String,
    pub lines: Vec<StyledLine>,
    pub highlight: Option<usize>,
}

/// The project list keeps project `i` (every project while no filter is typed).
pub open spec fn project_visible(app: App, i: int) -> bool {
    app.filter_query@.len() == 0 || crate::filter::query_accepts(app.filter_query@, display_name(app.projects@[i]))
}

/// How many of the first `i` projects the list keeps.
pub open spec fn visible_before(app: App, i: int) -> nat
    decreases i,
{
    if i <= 0 {
        0
    } else {
        visible_before(app, i - 1) + if project_visible(app, i - 1) {
            1nat
        } else {
            0nat
        }
    }
}

/// The cursor is on project `i` (or on one of its variables): with a filter,
/// by its place among the kept projects; without one, by its own place.
pub open spec fn project_selected(app: App, i: int) -> bool {
    if app.filter_query@.len() > 0 {
        visible_before(app, i) == app.filter_selected
    } else {
        i == app.project_list_selected
    }
}

/// The rows a project shows below its own: when expanded, the link row and
/// either its variables or, for a loaded project without any, a placeholder.
pub open spec fn sub_rows(p: ProjectEntry, expanded: bool) -> nat {
    if !expanded {
        0
    } else if p.env_vars@.len() == 0 && p.load_state is Idle {
        2
    } else {
        1 + p.env_vars@.len()
    }
}

pub open spec fn expanded(app: App, p: ProjectEntry) -> bool {
    app.project_expanded@.contains(p.guid@)
}

pub open spec fn load_badge(app: App, p: ProjectEntry) -> Seq<char> {
    match p.load_state {
        LoadState::Loading => " "@ + spinner_glyph(app.spinner_frame as int),
        LoadState::Error(_) => " [!]"@,
        LoadState::Idle => ""@,
    }
}

/// The row of project `i` itself.
pub open spec fn project_head(app: App, i: int, sel: bool) -> (Seq<char>, StyleRole) {
    let p = app.projects@[i];
    let listed = app.config.included().contains(p.guid@);
    let icon = if expanded(app, p) {
        "▾"@
    } else {
        "▸"@
    };
    let marker = if listed {
        "[✓]"@
    } else {
        "[ ]"@
    };
    (
        "  "@ + icon + " "@ + marker + " "@ + display_name(p) + "  "@ + first_chars(p.guid@, 8) + load_badge(app, p),
        if sel && app.project_var_selected is None && !app.sidebar_focused {
            StyleRole::Selected
        } else if listed {
            StyleRole::Normal
        } else {
            StyleRole::Dim
        },
    )
}

/// The link row of an expanded project.
pub open spec fn project_link(app: App, p: ProjectEntry) -> (Seq<char>, StyleRole) {
    ("      🔗 "@ + trim_trailing_slashes(app.config.server_url@) + "/connect/#/apps/"@ + p.guid@, StyleRole::Dim)
}

/// Row `j` of the variables of project `i`: whether the vault has it (and
/// its masked value), whether the project syncs, whether the variable is
/// excluded from sync.
pub open spec fn var_line(app: App, i: int, sel: bool, j: int) -> (Seq<char>, StyleRole) {
    let p = app.projects@[i];
    let name = p.env_vars@[j].name@;
    let listed = app.config.included().contains(p.guid@);
    let excluded = app.config.excluded_vars.list_of(p.guid@).contains(name);
    let stored = lookup(app.vault.entries_view(), name);
    let shown = match stored {
        Some(v) => " = "@ + masked(v),
        None => "  [NOT IN VAULT]"@,
    };
    let dot = if stored is Some {
        "●"@
    } else {
        "○"@
    };
    let (dot, suffix, base) = if !listed {
        (dot, shown, StyleRole::Dim)
    } else if excluded {
        ("○"@, "  [EXCLUDED FROM SYNC]"@, StyleRole::Dim)
    } else if stored is Some {
        (dot, shown, StyleRole::Success)
    } else {
        (dot, shown, StyleRole::Dim)
    };
    (
        "      "@ + dot + " "@ + name + suffix,
        if sel && !app.sidebar_focused && app.project_var_selected == Some(j as usize) {
            StyleRole::Selected
        } else {
            base
        },
    )
}

/// The rows of project `i` below its own when it is expanded.
pub open spec fn project_tail(app: App, i: int, sel: bool) -> Seq<(Seq<char>, StyleRole)> {
    let p = app.projects@[i];
    if !expanded(app, p) {
        Seq::empty()
    } else {
        seq![project_link(app, p)] + (if p.env_vars@.len() == 0 && p.load_state is Idle {
            seq![("      (no env vars)"@, StyleRole::Dim)]
        } else {
            Seq::empty()
        }) + Seq::new(p.env_vars@.len(), |j: int| var_line(app, i, sel, j))
    }
}

pub open spec fn project_block(app: App, i: int, sel: bool) -> Seq<(Seq<char>, StyleRole)> {
    seq![project_head(app, i, sel)] + project_tail(app, i, sel)
}

/// The rows of the kept projects among the first `n`.
pub open spec fn blocks_upto(app: App, n: int) -> Seq<(Seq<char>, StyleRole)>
    decreases n,
{
    if n <= 0 {
        Seq::empty()
    } else if project_visible(app, n - 1) {
        blocks_upto(app, n - 1) + project_block(app, n - 1, project_selected(app, n - 1))
    } else {
        blocks_upto(app, n - 1)
    }
}

/// The project list shows the spinner: while the list is empty and
/// loading, or for a kept project whose variables are loading.
pub open spec fn shows_spinner(app: App) -> bool {
    ||| app.projects@.len() == 0 && app.load_state is Loading
    ||| exists|i: int| 0 <= i < app.projects@.len() && project_visible(app, i) && #[trigger] app.projects@[i].load_state
        is Loading
}

/// The line shown in place of an empty project list.
pub open spec fn empty_list_message(app: App) -> Seq<char> {
    match app.load_state {
        LoadState::Loading => "  "@ + spinner_glyph(app.spinner_frame as int) + " Fetching projects…"@,
        LoadState::Error(e) => "  ✗ Error: "@ + e@,
        LoadState::Idle => "  No projects loaded. Press Ctrl+P to refresh."@,
    }
}

/// The brackets around a count in a title.
pub const OPEN: char = '\u{28}';

pub const CLOSE: char = '\u{29}';

/// The title of a list of `n` entries called `name`: the name, then the
/// count in brackets.
pub open spec fn counted_title(name: Seq<char>, n: nat) -> Seq<char> {
    " "@ + name + " "@ + seq![OPEN] + decimal(n) + seq![CLOSE, ' ']
}

/// The title of the project list.
pub open spec fn projects_title(n: nat) -> Seq<char> {
    counted_title("Projects"@, n)
}

pub open spec fn project_list_lines(app: App) -> Seq<(Seq<char>, StyleRole)> {
    if app.projects@.len() == 0 {
        seq![(empty_list_message(app), StyleRole::Dim)]
    } else {
        blocks_upto(app, app.projects@.len() as int)
    }
}

/// Rows taken by the first `n` projects, counting only the kept ones and,
/// with a filter, only those before the selected one.
pub open spec fn rows_before(app: App, n: int) -> nat
    decreases n,
{
    if n <= 0 {
        0
    } else {
        rows_before(app, n - 1) + if project_visible(app, n - 1) && (app.filter_query@.len() == 0
            || visible_before(app, n - 1) < app.filter_selected) {
            1 + sub_rows(app.projects@[n - 1], expanded(app, app.projects@[n - 1]))
        } else {
            0
        }
    }
}

/// The row under the cursor: with a filter, the row of the selected kept
/// project; without one, the row of the selected project, or of its selected
/// variable (the link row comes first); past the end, the row after the last.
pub open spec fn project_highlight(app: App) -> int {
    let n = app.projects@.len() as int;
    let sel = app.project_list_selected as int;
    if app.filter_query@.len() > 0 || sel >= n {
        rows_before(app, n) as int
    } else {
        rows_before(app, sel) + match app.project_var_selected {
            Some(v) => 2 + v,
            None => 0,
        }
    }
}

/// The cursor row of the project list, if the list has projects.
pub open spec fn project_list_cursor(app: App) -> Option<usize> {
    if app.projects@.len() == 0 {
        None
    } else {
        Some(clamp_usize(project_highlight(app)))
    }
}

pub proof fn lemma_block_len(app: App, i: int, sel: bool)
    requires
        0 <= i < app.projects@.len(),
    ensures
        project_block(app, i, sel).len() == 1 + sub_rows(app.projects@[i], expanded(app, app.projects@[i])),
{
}

/// `x`, or the largest `usize` when it does not fit.
pub open spec fn clamp_usize(x: int) -> usize {
    if x <= usize::MAX {
        x as usize
    } else {
        usize::MAX
    }
}

/// Row counts agree with the lines while the selected kept project has not
/// been passed.
pub proof fn lemma_rows_before_len(app: App, i: int)
    requires
        0 <= i <= app.projects@.len(),
        app.filter_query@.len() == 0 || visible_before(app, i) <= app.filter_selected,
    ensures
        rows_before(app, i) == blocks_upto(app, i).len(),
    decreases i,
{
    if i > 0 {
        lemma_rows_before_len(app, i - 1);
        if project_visible(app, i - 1) {
            lemma_block_len(app, i - 1, project_selected(app, i - 1));
        }
    }
}

// ---------------------------------------------------------------------------
// Popups
// ---------------------------------------------------------------------------

/// A popup: where it is drawn, its title and its lines.
pub struct Popup {
    pub area: Area,
    pub title: String,
    pub lines: Vec<StyledLine>,
}

/// The add-variable popup: its input line and the suggested keys, with the
/// suggestion under the cursor.
pub struct AddVarView {
    pub area: Area,
    pub title: String,
    pub input: StyledLine,
    pub items: Vec<StyledLine>,
    pub highlight: Option<usize>,
}

pub open spec fn min_nat(a: nat, b: nat) -> nat {
    if a < b {
        a
    } else {
        b
    }
}

/// The lines of the sync confirmation for the projects `names`: at most ten
/// names, then how many more there are.
pub open spec fn sync_modal_lines(names: Seq<Seq<char>>) -> Seq<(Seq<char>, StyleRole)> {
    let n = names.len();
    seq![
        (""@, StyleRole::Normal),
        ("  Syncing vault values to "@ + decimal(n) + " project(s):"@, StyleRole::Normal),
        (""@, StyleRole::Normal),
    ] + Seq::new(min_nat(n, 10), |i: int| ("    • "@ + names[i], StyleRole::Normal)) + (if n > 10 {
        seq![("    … and "@ + decimal((n - 10) as nat) + " more"@, StyleRole::Dim)]
    } else {
        Seq::empty()
    }) + seq![(""@, StyleRole::Normal), ("  Enter/y: Confirm    Esc/n: Cancel"@, StyleRole::Dim)]
}

/// The projects that have a variable `key`, up to project `n`: display name
/// and whether the project is on the sync whitelist.
pub open spec fn detail_matches(app: App, key: Seq<char>, n: int) -> Seq<(Seq<char>, bool)>
    decreases n,
{
    if n <= 0 {
        Seq::empty()
    } else {
        let m = detail_matches(app, key, n - 1);
        let p = app.projects@[n - 1];
        if var_names(p.env_vars@).contains(key) {
            m.push((display_name(p), app.config.included().contains(p.guid@)))
        } else {
            m
        }
    }
}

/// Height of the detail popup for `m` projects: one body line each (at
/// least one), four more, sixteen at most.
pub open spec fn detail_height(m: nat) -> nat {
    min_nat(4 + if m > 1 { m } else { 1 }, 16)
}

/// How many projects the detail popup of height `h` lists by name.
pub open spec fn detail_shown(h: nat) -> nat {
    sat_sub(sat_sub(h as int, 3), 1) as nat
}

pub open spec fn detail_line(m: (Seq<char>, bool)) -> (Seq<char>, StyleRole) {
    if m.1 {
        ("  [✓] "@ + m.0, StyleRole::Normal)
    } else {
        ("  [ ] "@ + m.0, StyleRole::Dim)
    }
}

pub open spec fn detail_lines(ms: Seq<(Seq<char>, bool)>) -> Seq<(Seq<char>, StyleRole)> {
    let shown = detail_shown(detail_height(ms.len()));
    (if ms.len() == 0 {
        seq![("  (no projects have this var)"@, StyleRole::Dim)]
    } else {
        Seq::new(min_nat(shown, ms.len()), |i: int| detail_line(ms[i])) + if ms.len() > shown {
            seq![("  … and "@ + decimal((ms.len() - shown) as nat) + " more"@, StyleRole::Dim)]
        } else {
            Seq::empty()
        }
    }) + seq![("  any key to close"@, StyleRole::Dim)]
}

/// The name the add-variable popup gives its project.
pub open spec fn add_var_project_name(app: App, guid: Seq<char>) -> Seq<char> {
    let pos = crate::app::project_pos(app.projects@, guid);
    if pos >= 0 {
        display_name(app.projects@[pos])
    } else {
        "Project"@
    }
}

pub open spec fn suggestion_line(app: App, keys: Seq<Seq<char>>, i: int) -> (Seq<char>, StyleRole) {
    ("  "@ + keys[i], if i == app.add_var_popup->0.selected {
        StyleRole::Selected
    } else {
        StyleRole::Normal
    })
}

// ---------------------------------------------------------------------------
// Tables
// ---------------------------------------------------------------------------

/// A row of a two-column table: a key and a value, each with its style.
pub struct TableRow {
    pub key: String,
    pub key_role: StyleRole,
    pub value: String,
    pub value_role: StyleRole,
}

pub type RowView = (Seq<char>, StyleRole, Seq<char>, StyleRole);

pub open spec fn row_view(r: TableRow) -> RowView {
    (r.key@, r.key_role, r.value@, r.value_role)
}

pub open spec fn rows_view(s: Seq<TableRow>) -> Seq<RowView> {
    s.map_values(|r: TableRow| row_view(r))
}

/// A table page: title, rows and the row under the cursor.
pub struct TableView {
    pub title: String,
    pub rows: Vec<TableRow>,
    pub highlight: Option<usize>,
}

/// The row of vault entry `i`; an entry being edited shows the edit buffer
/// with a cursor in the field being edited.
pub open spec fn vault_row(app: App, i: int, selected: bool) -> RowView {
    let (k, v) = app.vault.entries_view()[i];
    let buf = app.vault_edit_buffer@ + "█"@;
    if app.vault_editing == Some(i as usize) {
        match app.vault_edit_field {
            VaultField::Key => (buf, StyleRole::Selected, masked(v), StyleRole::Normal),
            VaultField::Value => (k, StyleRole::Normal, buf, StyleRole::Selected),
        }
    } else {
        let role = if selected {
            StyleRole::Selected
        } else {
            StyleRole::Normal
        };
        (k, role, masked(v), role)
    }
}

/// The rows of the first `n` vault entries that the filter keeps; the
/// cursor row is found by its place among the kept rows while a filter is
/// typed, by its own place otherwise, and only when the page has the focus.
pub open spec fn vault_rows_upto(app: App, n: int) -> Seq<RowView>
    decreases n,
{
    if n <= 0 {
        Seq::empty()
    } else {
        let prev = vault_rows_upto(app, n - 1);
        let filtering = app.filter_query@.len() > 0;
        let k = app.vault.entries_view()[n - 1].0;
        if filtering && !crate::filter::query_accepts(app.filter_query@, k) {
            prev
        } else {
            let at_cursor = if filtering {
                prev.len() == app.filter_selected
            } else {
                n - 1 == app.vault_selected
            };
            prev.push(vault_row(app, n - 1, at_cursor && !app.sidebar_focused))
        }
    }
}

pub open spec fn dirty_mark(app: App) -> Seq<char> {
    if app.vault.dirty {
        " ●"@
    } else {
        ""@
    }
}

/// The Vault page's title: entry count (kept of all, with a filter) and a
/// mark for unsaved changes.
pub open spec fn vault_title(app: App, kept: nat) -> Seq<char> {
    let total = app.vault.entries_view().len();
    " Vault "@ + seq![OPEN] + (if app.filter_query@.len() > 0 {
        decimal(kept) + "/"@ + decimal(total)
    } else {
        decimal(total)
    }) + " entries"@ + seq![CLOSE] + dirty_mark(app) + " "@
}

pub open spec fn vault_cursor(app: App, kept: nat) -> Option<usize> {
    if app.filter_query@.len() > 0 {
        if kept > 0 {
            Some(app.filter_selected)
        } else {
            None
        }
    } else if app.vault.entries_view().len() > 0 {
        Some(app.vault_selected)
    } else {
        None
    }
}

/// The most bytes of a vault value the Env Vars page shows.
pub const VALUE_SHOWN_BYTES: usize = 40;

/// The row of variable `i` of the Env Vars page: its key and the start of
/// its vault value.
pub open spec fn env_row(app: App, i: int) -> RowView {
    let row = app.env_var_rows@[i];
    let shown = match row.vault_value {
        Some(v) => clip_bytes(v@, VALUE_SHOWN_BYTES as int),
        None => "[NOT IN VAULT]"@,
    };
    if i == app.env_var_selected && !app.sidebar_focused {
        (row.key@, StyleRole::Selected, shown, StyleRole::Selected)
    } else {
        (row.key@, StyleRole::Normal, shown, if row.vault_value is Some {
            StyleRole::Normal
        } else {
            StyleRole::Dim
        })
    }
}

// ---------------------------------------------------------------------------
// Settings
// ---------------------------------------------------------------------------

/// One field of the Settings page.
pub struct FieldView {
    pub label: String,
    pub value: String,
    pub label_role: StyleRole,
    pub value_role: StyleRole,
    pub border_role: StyleRole,
}

pub type FieldSpec = (Seq<char>, Seq<char>, StyleRole, StyleRole, StyleRole);

pub open spec fn field_view(f: FieldView) -> FieldSpec {
    (f.label@, f.value@, f.label_role, f.value_role, f.border_role)
}

pub open spec fn theme_name(t: ThemeVariant) -> Seq<char> {
    match t {
        ThemeVariant::Inherit => "inherit"@,
        ThemeVariant::OneDark => "onedark"@,
        ThemeVariant::SkyOrange => "sky-orange"@,
    }
}

pub open spec fn setting_label(i: int) -> Seq<char> {
    if i == 0 {
        "Server URL"@
    } else if i == 1 {
        "API Key"@
    } else if i == 2 {
        "Vault File Path"@
    } else {
        "Theme"@
    }
}

pub open spec fn setting_text(app: App, i: int) -> Seq<char> {
    if i == 0 {
        app.config.server_url@
    } else if i == 1 {
        app.config.api_key@
    } else if i == 2 {
        app.config.vault_path@
    } else {
        theme_name(app.config.theme)
    }
}

/// Settings field `i`: the field being edited shows the edit buffer, the
/// API key is masked, and the selected field is accented.
pub open spec fn setting_field(app: App, i: int) -> FieldSpec {
    let selected = i == app.settings_selected && !app.sidebar_focused;
    let editing = app.settings_editing && selected;
    let text = setting_text(app, i);
    let shown = if editing {
        app.settings_edit_buffer@ + "█"@
    } else if i == 1 && text.len() > 0 {
        masked(text)
    } else {
        text
    };
    if selected {
        (setting_label(i), shown, StyleRole::Accent, if editing {
            StyleRole::Selected
        } else {
            StyleRole::Normal
        }, StyleRole::Accent)
    } else {
        (setting_label(i), shown, StyleRole::Dim, StyleRole::Normal, StyleRole::Border)
    }
}

pub open spec fn last_refresh_text(app: App) -> Seq<char> {
    match app.config.last_refresh {
        Some(t) => t@,
        None => "Never"@,
    }
}

/// The rows of the first `m` projects begin the rows of the first `n`.
pub proof fn lemma_blocks_prefix(app: App, m: int, n: int)
    requires
        0 <= m <= n,
    ensures
        blocks_upto(app, m).len() <= blocks_upto(app, n).len(),
        blocks_upto(app, n).subrange(0, blocks_upto(app, m).len() as int) == blocks_upto(app, m),
    decreases n,
{
    if n > m {
        lemma_blocks_prefix(app, m, n - 1);
        let a = blocks_upto(app, m);
        let b = blocks_upto(app, n - 1);
        let c = blocks_upto(app, n);
        if project_visible(app, n - 1) {
            assert(c.subrange(0, a.len() as int) =~= b.subrange(0, a.len() as int));
        }
    } else {
        assert(blocks_upto(app, n).subrange(0, blocks_upto(app, m).len() as int) =~= blocks_upto(app, m));
    }
}

/// Without a filter, the cursor row of the project list is the row of the
/// selected project, or, when a variable of the expanded project is
/// selected, the row of that variable.
pub proof fn law_cursor_on_selection(app: App)
    requires
        app.filter_query@.len() == 0,
        app.project_list_selected < app.projects@.len(),
    ensures
        ({
            let i = app.project_list_selected as int;
            let p = app.projects@[i];
            let lines = project_list_lines(app);
            &&& app.project_var_selected is None ==> lines[project_highlight(app)] == project_head(app, i, true)
            &&& app.project_var_selected matches Some(v) ==> (expanded(app, p) && v < p.env_vars@.len()
                ==> lines[project_highlight(app)] == var_line(app, i, true, v as int))
        }),
{
    let i = app.project_list_selected as int;
    let n = app.projects@.len() as int;
    lemma_blocks_prefix(app, i + 1, n);
    lemma_rows_before_len(app, i);
    assert(project_selected(app, i));
    let before = blocks_upto(app, i);
    let blk = project_block(app, i, true);
    assert(blocks_upto(app, i + 1) == before + blk);
    let all = blocks_upto(app, n);
    let upto = blocks_upto(app, i + 1);
    assert forall|t: int| 0 <= t < upto.len() implies all[t] == upto[t] by {
        assert(all.subrange(0, upto.len() as int)[t] == all[t]);
    }
    assert(upto[before.len() as int] == blk[0]);
    if app.project_var_selected is Some {
        let v = app.project_var_selected->0 as int;
        let p = app.projects@[i];
        if expanded(app, p) && v < p.env_vars@.len() {
            let tail = project_tail(app, i, true);
            assert(blk[2 + v] == tail[1 + v]);
            assert(tail[1 + v] == var_line(app, i, true, v));
            assert(upto[before.len() + 2 + v] == blk[2 + v]);
        }
    }
}

proof fn lemma_visible_before_monotone(app: App, i: int, m: int)
    requires
        0 <= i <= m,
    ensures
        visible_before(app, i) <= visible_before(app, m),
    decreases m - i,
{
    if i < m {
        lemma_visible_before_monotone(app, i, m - 1);
    }
}

/// Past the selected kept project, no further rows count towards the cursor.
proof fn lemma_rows_before_settled(app: App, i: int, m: int)
    requires
        app.filter_query@.len() > 0,
        0 <= i <= m,
        visible_before(app, i) == app.filter_selected,
    ensures
        rows_before(app, m) == rows_before(app, i),
    decreases m - i,
{
    if i < m {
        lemma_rows_before_settled(app, i, m - 1);
        lemma_visible_before_monotone(app, i, m - 1);
    }
}

/// With a filter typed, the cursor row of the project list is the row of
/// the kept project at the cursor's place among the kept projects.
pub proof fn law_filtered_cursor_on_selection(app: App, i: int)
    requires
        app.filter_query@.len() > 0,
        0 <= i < app.projects@.len(),
        project_visible(app, i),
        visible_before(app, i) == app.filter_selected,
    ensures
        project_list_lines(app)[project_highlight(app)] == project_head(app, i, true),
{
    let n = app.projects@.len() as int;
    lemma_rows_before_settled(app, i, n);
    lemma_rows_before_len(app, i);
    lemma_blocks_prefix(app, i + 1, n);
    assert(project_selected(app, i));
    let before = blocks_upto(app, i);
    let blk = project_block(app, i, true);
    let upto = blocks_upto(app, i + 1);
    assert(upto == before + blk);
    let all = blocks_upto(app, n);
    assert(all.subrange(0, upto.len() as int)[before.len() as int] == all[before.len() as int]);
    assert(upto[before.len() as int] == blk[0]);
}

/// With a filter typed, the Vault page shows one row per entry the filter
/// keeps: as many rows as the count that bounds the cursor.
pub proof fn law_vault_rows_follow_filter_count(app: App)
    requires
        app.filter_query@.len() > 0,
    ensures
        vault_rows_upto(app, app.vault.entries_view().len() as int).len() == count_accepted(
            app.filter_query@,
            page_texts(app, Page::Vault),
        ),
{
    let e = app.vault.entries_view();
    lemma_vault_rows_count(app, e.len() as int);
    assert(entry_keys(e).take(e.len() as int) =~= entry_keys(e));
}

proof fn lemma_vault_rows_count(app: App, n: int)
    requires
        0 <= n <= app.vault.entries_view().len(),
        app.filter_query@.len() > 0,
    ensures
        vault_rows_upto(app, n).len() == count_accepted(app.filter_query@, entry_keys(app.vault.entries_view()).take(n)),
    decreases n,
{
    let t = entry_keys(app.vault.entries_view()).take(n);
    if n > 0 {
        lemma_vault_rows_count(app, n - 1);
        assert(t.drop_last() =~= entry_keys(app.vault.entries_view()).take(n - 1));
        assert(t.last() == app.vault.entries_view()[n - 1].0);
    } else {
        assert(t.len() == 0);
    }
}

/// With a filter typed, the project list shows one project per project the
/// filter keeps: as many as the count that bounds the cursor.
pub proof fn law_projects_follow_filter_count(app: App)
    requires
        app.filter_query@.len() > 0,
    ensures
        visible_before(app, app.projects@.len() as int) == count_accepted(
            app.filter_query@,
            page_texts(app, Page::ProjectList),
        ),
{
    let ps = app.projects@;
    lemma_visible_count(app, ps.len() as int);
    assert(project_names(ps).take(ps.len() as int) =~= project_names(ps));
}

proof fn lemma_visible_count(app: App, n: int)
    requires
        0 <= n <= app.projects@.len(),
        app.filter_query@.len() > 0,
    ensures
        visible_before(app, n) == count_accepted(app.filter_query@, project_names(app.projects@).take(n)),
    decreases n,
{
    let t = project_names(app.projects@).take(n);
    if n > 0 {
        lemma_visible_count(app, n - 1);
        assert(t.drop_last() =~= project_names(app.projects@).take(n - 1));
        assert(t.last() == display_name(app.projects@[n - 1]));
    } else {
        assert(t.len() == 0);
    }
}

/// The name a project is shown by.
fn shown_name(p: &ProjectEntry) -> (r: &str)
    ensures
        r@ == display_name(*p),
{
    match &p.title {
        Some(t) => t.as_str(),
        None => p.name.as_str(),
    }
}

impl App {
    /// Appends the rows of project `i`.
    fn push_project_block(&self, i: usize, sel: bool, out: &mut Vec<StyledLine>)
        requires
            i < self.projects@.len(),
            self.projects@[i as int].load_state is Loading ==> self.spinner_frame < SPINNER_FRAME_COUNT,
        ensures
            lines_view(final(out)@) == lines_view(old(out)@) + project_block(*self, i as int, sel),
    {
        let ghost start = lines_view(out@);
        let p = &self.projects[i];
        let listed = self.config.includes(&p.guid);
        let is_expanded = self.project_expanded.contains(&p.guid);
        let icon = if is_expanded {
            "▾"
        } else {
            "▸"
        };
        let marker = if listed {
            "[✓]"
        } else {
            "[ ]"
        };
        let mut text = concat3("  ", icon, " ");
        push_str(&mut text, marker);
        push_str(&mut text, " ");
        push_str(&mut text, shown_name(p));
        push_str(&mut text, "  ");
        let short = prefix_chars(p.guid.as_str(), 8);
        push_str(&mut text, short.as_str());
        let ghost named = text@;
        match &p.load_state {
            LoadState::Loading => {
                let badge = concat2(" ", self.spinner());
                push_str(&mut text, badge.as_str());
            },
            LoadState::Error(_) => push_str(&mut text, " [!]"),
            LoadState::Idle => {
                proof {
                    reveal_strlit("");
                    assert(text@ =~= named + ""@);
                }
            },
        }
        assert(text@ == named + load_badge(*self, *p));
        let role = if sel && self.project_var_selected.is_none() && !self.sidebar_focused {
            StyleRole::Selected
        } else if listed {
            StyleRole::Normal
        } else {
            StyleRole::Dim
        };
        push_line(out, line(text, role));
        assert(lines_view(out@) == start + seq![project_head(*self, i as int, sel)]);
        if !is_expanded {
            assert(project_block(*self, i as int, sel) =~= seq![project_head(*self, i as int, sel)]);
            return;
        }
        let mut url = owned("      🔗 ");
        let base = without_trailing_slashes(self.config.server_url.as_str());
        push_str(&mut url, base.as_str());
        push_str(&mut url, "/connect/#/apps/");
        push_str(&mut url, p.guid.as_str());
        push_line(out, line(url, StyleRole::Dim));
        let placeholder = p.env_vars.len() == 0 && matches!(p.load_state, LoadState::Idle);
        if placeholder {
            push_line(out, line(owned("      (no env vars)"), StyleRole::Dim));
        }
        let ghost mid = lines_view(out@);
        assert(mid == start + seq![project_head(*self, i as int, sel)] + seq![project_link(*self, *p)] + (if placeholder {
            seq![("      (no env vars)"@, StyleRole::Dim)]
        } else {
            Seq::empty()
        }));
        let excl = self.config.excluded_vars.list_for(p.guid.as_str());
        let mut j: usize = 0;
        while j < p.env_vars.len()
            invariant
                i < self.projects@.len(),
                *p == self.projects@[i as int],
                listed == self.config.included().contains(p.guid@),
                strs_view(excl@) == self.config.excluded_vars.list_of(p.guid@),
                j <= p.env_vars@.len(),
                lines_view(out@) == mid + Seq::new(j as nat, |t: int| var_line(*self, i as int, sel, t)),
            decreases p.env_vars@.len() - j,
        {
            let v = &p.env_vars[j];
            let stored = self.vault.get(v.name.as_str());
            let excluded = contains_string(&excl, &v.name);
            let dot = if stored.is_some() {
                "●"
            } else {
                "○"
            };
            let shown = match stored {
                Some(val) => {
                    let m = mask_value(val);
                    concat2(" = ", m.as_str())
                },
                None => owned("  [NOT IN VAULT]"),
            };
            let (dot2, suffix, base_role) = if !listed {
                (dot, shown, StyleRole::Dim)
            } else if excluded {
                ("○", owned("  [EXCLUDED FROM SYNC]"), StyleRole::Dim)
            } else if stored.is_some() {
                (dot, shown, StyleRole::Success)
            } else {
                (dot, shown, StyleRole::Dim)
            };
            let mut t = concat3("      ", dot2, " ");
            push_str(&mut t, v.name.as_str());
            push_str(&mut t, suffix.as_str());
            let on_var = match self.project_var_selected {
                Some(vs) => vs == j,
                None => false,
            };
            let role = if sel && !self.sidebar_focused && on_var {
                StyleRole::Selected
            } else {
                base_role
            };
            assert(line_view(StyledLine { text: t, role }) == var_line(*self, i as int, sel, j as int));
            push_line(out, line(t, role));
            j += 1;
            assert(lines_view(out@) =~= mid + Seq::new(j as nat, |u: int| var_line(*self, i as int, sel, u)));
        }
        assert(lines_view(out@) =~= start + project_block(*self, i as int, sel));
    }

    /// Whether the project list shows the spinner.
    pub fn list_shows_spinner(&self) -> (r: bool)
        ensures
            r == shows_spinner(*self),
    {
        if self.projects.len() == 0 {
            return matches!(self.load_state, LoadState::Loading);
        }
        let filtering = !self.filter_query.as_str().is_empty();
        let mut i: usize = 0;
        while i < self.projects.len()
            invariant
                i <= self.projects@.len(),
                self.projects@.len() > 0,
                filtering == (self.filter_query@.len() > 0),
                forall|j: int| 0 <= j < i ==> !(project_visible(*self, j) && (#[trigger] self.projects@[j]).load_state is Loading),
            decreases self.projects@.len() - i,
        {
            let loading = matches!(self.projects[i].load_state, LoadState::Loading);
            if loading && (!filtering || self.filter_matches(shown_name(&self.projects[i]))) {
                return true;
            }
            i += 1;
        }
        false
    }

    /// The project list: its title, its rows and the row under the cursor.
    pub fn project_list_view(&self) -> (r: ListView)
        requires
            shows_spinner(*self) ==> self.spinner_frame < SPINNER_FRAME_COUNT,
        ensures
            r.title@ == projects_title(self.projects@.len()),
            lines_view(r.lines@) == project_list_lines(*self),
            r.highlight == project_list_cursor(*self),
    {
        let n = self.projects.len();
        let count = decimal_string(n);
        let mut title = owned(" Projects ");
        proof {
            reveal_strlit(" Projects ");
            reveal_strlit(" ");
            reveal_strlit("Projects");
        }
        push_char(&mut title, OPEN);
        push_str(&mut title, count.as_str());
        push_char(&mut title, CLOSE);
        push_char(&mut title, ' ');
        let mut out: Vec<StyledLine> = Vec::new();
        if n == 0 {
            let msg = match &self.load_state {
                LoadState::Loading => concat3("  ", self.spinner(), " Fetching projects…"),
                LoadState::Error(e) => concat2("  ✗ Error: ", e.as_str()),
                LoadState::Idle => owned("  No projects loaded. Press Ctrl+P to refresh."),
            };
            push_line(&mut out, line(msg, StyleRole::Dim));
            assert(lines_view(out@) =~= project_list_lines(*self));
            return ListView { title, lines: out, highlight: None };
        }
        let filtering = !self.filter_query.as_str().is_empty();
        let mut vis: usize = 0;
        let mut hl: Option<usize> = None;
        let mut i: usize = 0;
        while i < n
            invariant
                i <= n,
                n == self.projects@.len(),
                shows_spinner(*self) ==> self.spinner_frame < SPINNER_FRAME_COUNT,
                filtering == (self.filter_query@.len() > 0),
                vis == visible_before(*self, i as int),
                vis <= i,
                lines_view(out@) == blocks_upto(*self, i as int),
                filtering && (hl is None) ==> visible_before(*self, i as int) <= self.filter_selected,
                filtering && (hl is Some) ==> hl->0 == rows_before(*self, i as int) && self.filter_selected
                    < visible_before(*self, i as int),
                !filtering ==> ((hl is None) <==> i <= self.project_list_selected),
                !filtering && (hl is Some) ==> hl->0 == clamp_usize(project_highlight(*self)),
            decreases n - i,
        {
            let keep = !filtering || self.filter_matches(shown_name(&self.projects[i]));
            if keep {
                let sel = if filtering {
                    vis == self.filter_selected
                } else {
                    i == self.project_list_selected
                };
                proof {
                    if !filtering || hl is None {
                        lemma_rows_before_len(*self, i as int);
                    }
                }
                proof {
                    if self.projects@[i as int].load_state is Loading {
                        assert(project_visible(*self, i as int));
                        assert(shows_spinner(*self));
                    }
                }
                if sel && hl.is_none() {
                    let at = out.len();
                    if filtering {
                        hl = Some(at);
                    } else {
                        let off = match self.project_var_selected {
                            Some(v) => v.saturating_add(2),
                            None => 0,
                        };
                        hl = Some(at.saturating_add(off));
                    }
                }
                self.push_project_block(i, sel, &mut out);
                vis += 1;
            }
            i += 1;
        }
        let highlight = match hl {
            Some(h) => h,
            None => {
                proof {
                    lemma_rows_before_len(*self, n as int);
                }
                out.len()
            },
        };
        ListView { title, lines: out, highlight: Some(highlight) }
    }

    /// The sync confirmation, while it is shown, centred on `screen`.
    pub fn sync_modal(&self, screen: Area) -> (r: Option<Popup>)
        requires
            screen.x + screen.width <= u16::MAX,
            screen.y + screen.height <= u16::MAX,
        ensures
            r is Some <==> self.sync_confirm is Some,
            r matches Some(pop) ==> {
                let names = strs_view(self.sync_confirm->0@);
                &&& pop.area == centered_spec(screen, 52, 6 + min_nat(names.len(), 10) as int)
                &&& pop.title@ == " Confirm Sync "@
                &&& lines_view(pop.lines@) == sync_modal_lines(names)
            },
    {
        let names = match &self.sync_confirm {
            Some(v) => v,
            None => return None,
        };
        let ghost nv = strs_view(names@);
        let n = names.len();
        let shown: usize = if n < 10 {
            n
        } else {
            10
        };
        let area = centered(screen, 52, 6 + shown as u16);
        let mut out: Vec<StyledLine> = Vec::new();
        push_line(&mut out, line(owned(""), StyleRole::Normal));
        let count = decimal_string(n);
        push_line(&mut out, line(concat3("  Syncing vault values to ", count.as_str(), " project(s):"), StyleRole::Normal));
        push_line(&mut out, line(owned(""), StyleRole::Normal));
        let ghost head = lines_view(out@);
        let mut i: usize = 0;
        while i < shown
            invariant
                i <= shown,
                shown == min_nat(nv.len(), 10),
                nv == strs_view(names@),
                lines_view(out@) == head + Seq::new(i as nat, |j: int| ("    • "@ + nv[j], StyleRole::Normal)),
            decreases shown - i,
        {
            push_line(&mut out, line(concat2("    • ", names[i].as_str()), StyleRole::Normal));
            i += 1;
            assert(lines_view(out@) =~= head + Seq::new(i as nat, |j: int| ("    • "@ + nv[j], StyleRole::Normal)));
        }
        let ghost body = lines_view(out@);
        if n > 10 {
            let more = decimal_string(n - 10);
            push_line(&mut out, line(concat3("    … and ", more.as_str(), " more"), StyleRole::Dim));
        }
        let ghost with_more = lines_view(out@);
        push_line(&mut out, line(owned(""), StyleRole::Normal));
        push_line(&mut out, line(owned("  Enter/y: Confirm    Esc/n: Cancel"), StyleRole::Dim));
        assert(lines_view(out@) =~= sync_modal_lines(nv));
        Some(Popup { area, title: owned(" Confirm Sync "), lines: out })
    }

    /// The popup listing the projects that use the variable picked on the
    /// Env Vars page, while it is shown, centred on `screen`.
    pub fn env_var_detail_popup(&self, screen: Area) -> (r: Option<Popup>)
        requires
            screen.x + screen.width <= u16::MAX,
            screen.y + screen.height <= u16::MAX,
        ensures
            r is Some <==> self.env_var_detail is Some,
            r matches Some(pop) ==> {
                let key = self.env_var_detail->0@;
                let ms = detail_matches(*self, key, self.projects@.len() as int);
                &&& pop.area == centered_spec(screen, 58, detail_height(ms.len()) as int)
                &&& pop.title@ == " Projects using: "@ + key + " "@
                &&& lines_view(pop.lines@) == detail_lines(ms)
            },
    {
        let key = match &self.env_var_detail {
            Some(k) => k,
            None => return None,
        };
        let mut names: Vec<String> = Vec::new();
        let mut listed: Vec<bool> = Vec::new();
        let mut i: usize = 0;
        while i < self.projects.len()
            invariant
                i <= self.projects@.len(),
                names@.len() == listed@.len(),
                names@.len() == detail_matches(*self, key@, i as int).len(),
                forall|j: int| 0 <= j < names@.len() ==> (#[trigger] names@[j])@ == detail_matches(*self, key@, i as int)[j].0
                    && listed@[j] == detail_matches(*self, key@, i as int)[j].1,
            decreases self.projects@.len() - i,
        {
            let p = &self.projects[i];
            let mut has = false;
            let mut j: usize = 0;
            while j < p.env_vars.len()
                invariant
                    j <= p.env_vars@.len(),
                    has <==> var_names(p.env_vars@).take(j as int).contains(key@),
                decreases p.env_vars@.len() - j,
            {
                if str_eq(p.env_vars[j].name.as_str(), key.as_str()) {
                    has = true;
                }
                proof {
                    let t0 = var_names(p.env_vars@).take(j as int);
                    let t1 = var_names(p.env_vars@).take(j + 1);
                    assert(t1 =~= t0.push(p.env_vars@[j as int].name@));
                    if t0.contains(key@) {
                        let w = choose|w: int| 0 <= w < t0.len() && t0[w] == key@;
                        assert(t1[w] == key@);
                    }
                    if p.env_vars@[j as int].name@ == key@ {
                        assert(t1[j as int] == key@);
                    }
                }
                j += 1;
            }
            assert(var_names(p.env_vars@).take(p.env_vars@.len() as int) =~= var_names(p.env_vars@));
            let ghost prev = detail_matches(*self, key@, i as int);
            let ghost old_names = names@;
            let ghost old_listed = listed@;
            if has {
                names.push(owned(shown_name(p)));
                listed.push(self.config.includes(&p.guid));
            }
            proof {
                let next = detail_matches(*self, key@, i + 1);
                assert forall|j: int| 0 <= j < names@.len() implies (#[trigger] names@[j])@ == next[j].0 && listed@[j] == next[j].1 by {
                    if j < old_names.len() {
                        assert(names@[j] == old_names[j]);
                        assert(listed@[j] == old_listed[j]);
                    }
                }
            }
            i += 1;
        }
        let ghost ms = detail_matches(*self, key@, self.projects@.len() as int);
        let m = names.len();
        let body: usize = if m > 1 {
            m
        } else {
            1
        };
        let h: usize = if body < 12 {
            4 + body
        } else {
            16
        };
        let area = centered(screen, 58, h as u16);
        let shown: usize = if h > 4 {
            h - 4
        } else {
            0
        };
        assert(shown == detail_shown(detail_height(m as nat)));
        let mut out: Vec<StyledLine> = Vec::new();
        if m == 0 {
            push_line(&mut out, line(owned("  (no projects have this var)"), StyleRole::Dim));
        } else {
            let upto: usize = if shown < m {
                shown
            } else {
                m
            };
            let mut k: usize = 0;
            while k < upto
                invariant
                    k <= upto,
                    upto <= m,
                    m == names@.len(),
                    names@.len() == listed@.len(),
                    ms.len() == m,
                    forall|j: int| 0 <= j < names@.len() ==> (#[trigger] names@[j])@ == ms[j].0 && listed@[j] == ms[j].1,
                    lines_view(out@) == Seq::new(k as nat, |j: int| detail_line(ms[j])),
                decreases upto - k,
            {
                let l = if listed[k] {
                    line(concat2("  [✓] ", names[k].as_str()), StyleRole::Normal)
                } else {
                    line(concat2("  [ ] ", names[k].as_str()), StyleRole::Dim)
                };
                push_line(&mut out, l);
                k += 1;
                assert(lines_view(out@) =~= Seq::new(k as nat, |j: int| detail_line(ms[j])));
            }
            if m > shown {
                let more = decimal_string(m - shown);
                push_line(&mut out, line(concat3("  … and ", more.as_str(), " more"), StyleRole::Dim));
            }
        }
        push_line(&mut out, line(owned("  any key to close"), StyleRole::Dim));
        assert(lines_view(out@) =~= detail_lines(ms));
        Some(Popup { area, title: concat3(" Projects using: ", key.as_str(), " "), lines: out })
    }

    /// The add-variable popup, while it is shown, centred on `screen`.
    pub fn add_var_view(&self, screen: Area) -> (r: Option<AddVarView>)
        requires
            screen.x + screen.width <= u16::MAX,
            screen.y + screen.height <= u16::MAX,
        ensures
            r is Some <==> self.add_var_popup is Some,
            r matches Some(v) ==> {
                let popup = self.add_var_popup->0;
                let keys = add_var_suggestions_of(*self);
                let h = 3 + min_nat(keys.len(), 8);
                &&& v.area == centered_spec(screen, 56, if h > 5 { h as int } else { 5 })
                &&& v.title@ == " Add Env Var → "@ + add_var_project_name(*self, popup.guid@) + " "@
                &&& line_view(v.input) == (" > "@ + popup.query@ + "█"@, StyleRole::Normal)
                &&& lines_view(v.items@) == Seq::new(keys.len(), |i: int| suggestion_line(*self, keys, i))
                &&& v.highlight == (if keys.len() > 0 { Some(popup.selected) } else { None })
            },
    {
        let popup = match &self.add_var_popup {
            Some(p) => p,
            None => return None,
        };
        let name = match self.find_project(&popup.guid) {
            Some(pos) => shown_name(&self.projects[pos]),
            None => "Project",
        };
        let keys = self.add_var_suggestions();
        let ghost kv = strs_view(keys@);
        let visible: u16 = if keys.len() < 8 {
            keys.len() as u16
        } else {
            8
        };
        let h: u16 = if 3 + visible > 5 {
            3 + visible
        } else {
            5
        };
        let area = centered(screen, 56, h);
        let title = concat3(" Add Env Var → ", name, " ");
        let input = line(concat3(" > ", popup.query.as_str(), "█"), StyleRole::Normal);
        let mut items: Vec<StyledLine> = Vec::new();
        let mut i: usize = 0;
        while i < keys.len()
            invariant
                i <= keys@.len(),
                kv == strs_view(keys@),
                kv == add_var_suggestions_of(*self),
                self.add_var_popup == Some(*popup),
                lines_view(items@) == Seq::new(i as nat, |j: int| suggestion_line(*self, kv, j)),
            decreases keys@.len() - i,
        {
            let role = if i == popup.selected {
                StyleRole::Selected
            } else {
                StyleRole::Normal
            };
            push_line(&mut items, line(concat2("  ", keys[i].as_str()), role));
            i += 1;
            assert(lines_view(items@) =~= Seq::new(i as nat, |j: int| suggestion_line(*self, kv, j)));
        }
        let highlight = if keys.len() > 0 {
            Some(popup.selected)
        } else {
            None
        };
        Some(AddVarView { area, title, input, items, highlight })
    }

    /// The Vault page: its title, the rows the filter keeps and the cursor row.
    pub fn vault_table(&self) -> (r: TableView)
        ensures
            rows_view(r.rows@) == vault_rows_upto(*self, self.vault.entries_view().len() as int),
            r.title@ == vault_title(*self, r.rows@.len()),
            r.highlight == vault_cursor(*self, r.rows@.len()),
    {
        let n = self.vault.len();
        let filtering = !self.filter_query.as_str().is_empty();
        let focused = !self.sidebar_focused;
        let mut rows: Vec<TableRow> = Vec::new();
        let mut i: usize = 0;
        while i < n
            invariant
                i <= n,
                n == self.vault.entries_view().len(),
                filtering == (self.filter_query@.len() > 0),
                focused == !self.sidebar_focused,
                rows_view(rows@) == vault_rows_upto(*self, i as int),
            decreases n - i,
        {
            let ghost prev = rows_view(rows@);
            let k = self.vault.key_at(i).unwrap();
            let v = self.vault.value_at(i).unwrap();
            if !filtering || self.filter_matches(k.as_str()) {
                let at_cursor = if filtering {
                    rows.len() == self.filter_selected
                } else {
                    i == self.vault_selected
                };
                let editing = match self.vault_editing {
                    Some(e) => e == i,
                    None => false,
                };
                let row = if editing {
                    let buf = concat2(self.vault_edit_buffer.as_str(), "█");
                    match self.vault_edit_field {
                        VaultField::Key => TableRow {
                            key: buf,
                            key_role: StyleRole::Selected,
                            value: mask_value(v.as_str()),
                            value_role: StyleRole::Normal,
                        },
                        VaultField::Value => TableRow {
                            key: k,
                            key_role: StyleRole::Normal,
                            value: buf,
                            value_role: StyleRole::Selected,
                        },
                    }
                } else {
                    let role = if at_cursor && focused {
                        StyleRole::Selected
                    } else {
                        StyleRole::Normal
                    };
                    TableRow { key: k, key_role: role, value: mask_value(v.as_str()), value_role: role }
                };
                assert(row_view(row) == vault_row(*self, i as int, at_cursor && focused));
                rows.push(row);
                assert(rows_view(rows@) =~= prev.push(row_view(row)));
            }
            i += 1;
        }
        let kept = rows.len();
        let total = decimal_string(n);
        let mut title = owned(" Vault ");
        push_char(&mut title, OPEN);
        if filtering {
            let shown = decimal_string(kept);
            push_str(&mut title, shown.as_str());
            push_str(&mut title, "/");
        }
        push_str(&mut title, total.as_str());
        push_str(&mut title, " entries");
        push_char(&mut title, CLOSE);
        if self.vault.dirty {
            push_str(&mut title, " ●");
        } else {
            proof {
                reveal_strlit("");
                assert(title@ =~= title@ + ""@);
            }
        }
        push_str(&mut title, " ");
        let highlight = if filtering {
            if kept > 0 {
                Some(self.filter_selected)
            } else {
                None
            }
        } else if n > 0 {
            Some(self.vault_selected)
        } else {
            None
        };
        TableView { title, rows, highlight }
    }

    /// The Env Vars page: every variable with its vault value.
    pub fn env_var_table(&self) -> (r: TableView)
        ensures
            rows_view(r.rows@) == Seq::new(self.env_var_rows@.len(), |i: int| env_row(*self, i)),
            r.title@ == counted_title("Env Vars"@, self.env_var_rows@.len()),
            r.highlight == (if self.env_var_rows@.len() > 0 { Some(self.env_var_selected) } else { None }),
    {
        let n = self.env_var_rows.len();
        let focused = !self.sidebar_focused;
        let mut rows: Vec<TableRow> = Vec::new();
        let mut i: usize = 0;
        while i < n
            invariant
                i <= n,
                n == self.env_var_rows@.len(),
                focused == !self.sidebar_focused,
                rows_view(rows@) == Seq::new(i as nat, |j: int| env_row(*self, j)),
            decreases n - i,
        {
            let r = &self.env_var_rows[i];
            let shown = match &r.vault_value {
                Some(v) => clip_to_bytes(v.as_str(), VALUE_SHOWN_BYTES),
                None => owned("[NOT IN VAULT]"),
            };
            let row = if i == self.env_var_selected && focused {
                TableRow {
                    key: owned(r.key.as_str()),
                    key_role: StyleRole::Selected,
                    value: shown,
                    value_role: StyleRole::Selected,
                }
            } else {
                TableRow {
                    key: owned(r.key.as_str()),
                    key_role: StyleRole::Normal,
                    value: shown,
                    value_role: if r.vault_value.is_some() {
                        StyleRole::Normal
                    } else {
                        StyleRole::Dim
                    },
                }
            };
            let ghost prev = rows@;
            assert(row_view(row) == env_row(*self, i as int));
            rows.push(row);
            assert(rows_view(rows@) =~= rows_view(prev).push(row_view(row)));
            i += 1;
            assert(rows_view(rows@) =~= Seq::new(i as nat, |j: int| env_row(*self, j)));
        }
        let count = decimal_string(n);
        let mut title = owned(" Env Vars ");
        proof {
            reveal_strlit(" Env Vars ");
            reveal_strlit(" ");
            reveal_strlit("Env Vars");
        }
        push_char(&mut title, OPEN);
        push_str(&mut title, count.as_str());
        push_char(&mut title, CLOSE);
        push_char(&mut title, ' ');
        let highlight = if n > 0 {
            Some(self.env_var_selected)
        } else {
            None
        };
        TableView { title, rows, highlight }
    }

    /// The fields of the Settings page, in order, and the last refresh time.
    pub fn settings_view(&self) -> (r: (Vec<FieldView>, String))
        ensures
            r.0@.map_values(|f: FieldView| field_view(f)) == Seq::new(4, |i: int| setting_field(*self, i)),
            r.1@ == last_refresh_text(*self),
    {
        let focused = !self.sidebar_focused;
        let mut fields: Vec<FieldView> = Vec::new();
        let mut i: usize = 0;
        while i < 4
            invariant
                i <= 4,
                focused == !self.sidebar_focused,
                fields@.map_values(|f: FieldView| field_view(f)) == Seq::new(i as nat, |j: int| setting_field(*self, j)),
            decreases 4 - i,
        {
            let label = if i == 0 {
                "Server URL"
            } else if i == 1 {
                "API Key"
            } else if i == 2 {
                "Vault File Path"
            } else {
                "Theme"
            };
            let text: &str = if i == 0 {
                self.config.server_url.as_str()
            } else if i == 1 {
                self.config.api_key.as_str()
            } else if i == 2 {
                self.config.vault_path.as_str()
            } else {
                self.config.theme.config_name()
            };
            assert(text@ == setting_text(*self, i as int));
            let selected = i == self.settings_selected && focused;
            let editing = self.settings_editing && selected;
            let shown = if editing {
                concat2(self.settings_edit_buffer.as_str(), "█")
            } else if i == 1 && !text.is_empty() {
                mask_value(text)
            } else {
                owned(text)
            };
            let f = if selected {
                FieldView {
                    label: owned(label),
                    value: shown,
                    label_role: StyleRole::Accent,
                    value_role: if editing {
                        StyleRole::Selected
                    } else {
                        StyleRole::Normal
                    },
                    border_role: StyleRole::Accent,
                }
            } else {
                FieldView {
                    label: owned(label),
                    value: shown,
                    label_role: StyleRole::Dim,
                    value_role: StyleRole::Normal,
                    border_role: StyleRole::Border,
                }
            };
            assert(field_view(f) == setting_field(*self, i as int));
            let ghost prev = fields@;
            fields.push(f);
            assert(fields@.map_values(|g: FieldView| field_view(g)) =~= prev.map_values(|g: FieldView| field_view(g)).push(field_view(f)));
            i += 1;
            assert(fields@.map_values(|g: FieldView| field_view(g)) =~= Seq::new(i as nat, |j: int| setting_field(*self, j)));
        }
        let refresh = match &self.config.last_refresh {
            Some(t) => owned(t.as_str()),
            None => owned("Never"),
        };
        (fields, refresh)
    }

    /// The four sidebar entries, in sidebar order.
    pub fn sidebar_lines(&self) -> (r: Vec<StyledLine>)
        ensures
            lines_view(r@) == Seq::new(4, |i: int| sidebar_line(*self, i)),
    {
        let mut out: Vec<StyledLine> = Vec::new();
        let mut i: usize = 0;
        while i < 4
            invariant
                i <= 4,
                lines_view(out@) == Seq::new(i as nat, |j: int| sidebar_line(*self, j)),
            decreases 4 - i,
        {
            let p = Page::from_index(i);
            let current = p == self.page;
            let arrow = if current && self.sidebar_focused {
                "▶"
            } else if current {
                "·"
            } else {
                " "
            };
            let label = p.label();
            let text = concat3(" ", arrow, " ");
            let text = concat2(text.as_str(), label);
            let role = if current {
                StyleRole::Selected
            } else {
                StyleRole::Normal
            };
            assert(label@ == page_label(p));
            push_line(&mut out, line(text, role));
            i += 1;
            assert(lines_view(out@) =~= Seq::new(i as nat, |j: int| sidebar_line(*self, j)));
        }
        out
    }

    /// The status line.
    pub fn status_line(&self) -> (r: StatusLine)
        requires
            self.status_message is None && self.load_state is Loading ==> self.spinner_frame < SPINNER_FRAME_COUNT,
        ensures
            match self.status_message {
                Some((msg, level, _)) => r matches StatusLine::Message { text, role } && text@ == "  "@
                    + msg@ && role == level_role(level),
                None => r matches StatusLine::Hints { spinner, hints } && spinner@ == spinner_slot(*self)
                    && hints@ == hints_for(*self),
            },
    {
        match &self.status_message {
            Some((msg, level, _)) => {
                let role = match level {
                    StatusLevel::Info => StyleRole::Normal,
                    StatusLevel::Success => StyleRole::Success,
                    StatusLevel::Error => StyleRole::Error,
                };
                StatusLine::Message { text: concat2("  ", msg.as_str()), role }
            },
            None => {
                let spinner = match &self.load_state {
                    LoadState::Loading => concat2(self.spinner(), " "),
                    _ => owned("  "),
                };
                let hints = if self.sidebar_focused {
                    "Tab:Content  ↑↓:Nav  Ctrl+P:Refresh  Ctrl+C:Quit"
                } else {
                    match self.page {
                        Page::ProjectList => "Tab:Sidebar  ↑↓:Nav  Enter/Space:Expand  x:Toggle  a:AddVar  d:Del  ←/Esc:Sidebar  Ctrl+P:Refresh  Ctrl+C:Quit",
                        Page::EnvVarList => "Tab:Sidebar  ↑↓:Nav  e/E:Editor  ←/Esc:Sidebar  Ctrl+C:Quit",
                        Page::Vault => if self.vault_editing.is_some() {
                            "Enter:Save  Esc:Cancel"
                        } else {
                            "Tab:Sidebar  ↑↓:Nav  e/Enter:Edit  E:Editor  n:New  d:Del  ←/Esc:Sidebar  Ctrl+U:Sync  Ctrl+C:Quit"
                        },
                        Page::Settings => if self.settings_editing {
                            "Enter:Confirm  Esc:Cancel"
                        } else {
                            "Tab:Sidebar  ↑↓:Nav  Enter/e:Edit  ←/Esc:Sidebar  Ctrl+C:Quit"
                        },
                    }
                };
                StatusLine::Hints { spinner, hints }
            },
        }
    }

    /// The filter bar under the page: shown while the content pane has the
    /// focus and a filter is typed or being typed.
    pub fn filter_bar(&self) -> (r: Option<StyledLine>)
        ensures
            r is Some <==> !self.sidebar_focused && (self.filter_editing || self.filter_query@.len() > 0),
            r matches Some(l) ==> line_view(l) == (
                " / "@ + self.filter_query@ + if self.filter_editing {
                    "█"@
                } else {
                    ""@
                },
                if self.filter_editing {
                    StyleRole::Accent
                } else {
                    StyleRole::Dim
                },
            ),
    {
        if self.sidebar_focused || !(self.filter_editing || !self.filter_query.as_str().is_empty()) {
            return None;
        }
        let cursor = if self.filter_editing {
            "█"
        } else {
            ""
        };
        let role = if self.filter_editing {
            StyleRole::Accent
        } else {
            StyleRole::Dim
        };
        Some(line(concat3(" / ", self.filter_query.as_str(), cursor), role))
    }
}

} // verus!
