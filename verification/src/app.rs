//! The application state and its basic operations. Every reaction of the
//! interface is a function from this state and an input (a key, a message
//! from a background request, a clock tick) to the next state and a list of
//! effects that the program around the library carries out.
use vstd::prelude::*;
use crate::config::{Config, StringSet};
use crate::model::{opt_view, ContentItem, EnvVar};
use crate::theme::Palette;
use crate::vault::{lookup, Entries, Vault};

verus! {

// ---------------------------------------------------------------------------
// Pages
// ---------------------------------------------------------------------------

/// The pages of the sidebar, in sidebar order.
#[derive(Debug, Clone, Copy, PartialEq, Eq, Structural)]
pub enum Page {
    ProjectList,
    EnvVarList,
    Vault,
    Settings,
}

pub open spec fn page_index(p: Page) -> int {
    match p {
        Page::ProjectList => 0,
        Page::EnvVarList => 1,
        Page::Vault => 2,
        Page::Settings => 3,
    }
}

pub open spec fn page_at(i: int) -> Page {
    if i == 1 {
        Page::EnvVarList
    } else if i == 2 {
        Page::Vault
    } else if i == 3 {
        Page::Settings
    } else {
        Page::ProjectList
    }
}

impl Page {
    /// Position of the page in the sidebar.
    pub fn index(&self) -> (r: usize)
        ensures
            r == page_index(*self),
    {
        match self {
            Page::ProjectList => 0,
            Page::EnvVarList => 1,
            Page::Vault => 2,
            Page::Settings => 3,
        }
    }

    /// The page at sidebar position `i`; the project list for any other `i`.
    pub fn from_index(i: usize) -> (p: Page)
        ensures
            p == page_at(i as int),
    {
        match i {
            0 => Page::ProjectList,
            1 => Page::EnvVarList,
            2 => Page::Vault,
            3 => Page::Settings,
            _ => Page::ProjectList,
        }
    }

    /// The sidebar label of the page.
    pub fn label(&self) -> (r: &'static str)
        ensures
            *self == Page::ProjectList ==> r@ == "Projects"@,
            *self == Page::EnvVarList ==> r@ == "Env Vars"@,
            *self == Page::Vault ==> r@ == "Vault"@,
            *self == Page::Settings ==> r@ == "Settings"@,
    {
        match self {
            Page::ProjectList => "Projects",
            Page::EnvVarList => "Env Vars",
            Page::Vault => "Vault",
            Page::Settings => "Settings",
        }
    }
}

/// `index` and `from_index` are inverse on the four pages.
pub proof fn law_page_index_roundtrip(p: Page, i: int)
    ensures
        page_at(page_index(p)) == p,
        0 <= i < 4 ==> page_index(page_at(i)) == i,
        0 <= page_index(p) < 4,
{
}

// ---------------------------------------------------------------------------
// Supporting types
// ---------------------------------------------------------------------------

#[derive(Debug, Clone)]
pub enum LoadState {
    Idle,
    Loading,
    Error(String),
}

#[derive(Debug, Clone, Copy, PartialEq, Eq, Structural)]
pub enum VaultField {
    Key,
    Value,
}

#[derive(Debug, Clone, Copy, PartialEq, Eq, Structural)]
pub enum StatusLevel {
    Info,
    Success,
    Error,
}

/// A value that the program should open in the user's editor.
#[derive(Debug)]
pub enum EditorTarget {
    /// The vault value of this key.
    VaultEntry(String),
}

/// A project (content item) with its environment variables.
#[derive(Debug)]
pub struct ProjectEntry {
    pub guid: String,
    pub name: String,
    pub title: Option<String>,
    pub env_vars: Vec<EnvVar>,
    pub load_state: LoadState,
}

/// One row of the Env Vars page: a variable name and its vault value.
#[derive(Debug, Clone)]
pub struct EnvVarRow {
    pub key: String,
    pub vault_value: Option<String>,
}

/// The popup that adds a vault key to a project.
#[derive(Debug)]
pub struct AddVarPopup {
    pub guid: String,
    pub query: String,
    pub selected: usize,
}

/// Results of background requests, handed back to the state.
pub enum AppEvent {
    ProjectsFetched(Vec<ContentItem>),
    EnvVarsFetched { guid: String, vars: Vec<EnvVar> },
    EnvVarsFetchError { guid: String, error: String },
    /// A project's current variables, read for a sync.
    SyncVarsFetched { guid: String, vars: Vec<EnvVar> },
    /// Reading a project's variables for a sync failed.
    SyncFetchFailed { guid: String, error: String },
    SyncComplete { _guid: String, result: Result<(), String> },
    EnvVarPatched { _guid: String, result: Result<(), String> },
    FetchError(String),
}

/// Why a list of variables is sent to a project.
#[derive(Debug, Clone, Copy, PartialEq, Eq, Structural)]
pub enum PushPurpose {
    /// Part of a vault sync; the answer is a `SyncComplete` event.
    Sync,
    /// A single add or delete; the answer is an `EnvVarPatched` event.
    Patch,
}

/// Work that the state asks the surrounding program to do.
pub enum Effect {
    /// List the content items; answer with `ProjectsFetched` or `FetchError`.
    FetchProjects { server_url: String, api_key: String },
    /// Read one project's variables; answer with `EnvVarsFetched` or `EnvVarsFetchError`.
    FetchEnvVars { server_url: String, api_key: String, guid: String },
    /// Read one project's current variables for a sync; answer with
    /// `SyncVarsFetched` or `SyncFetchFailed`.
    FetchForSync { server_url: String, api_key: String, guid: String },
    /// Replace one project's variables with `vars`.
    PushEnvVars {
        server_url: String,
        api_key: String,
        guid: String,
        vars: Vec<EnvVar>,
        purpose: PushPurpose,
    },
    /// Write the configuration file.
    SaveConfig,
    /// Write the vault file.
    SaveVault,
    /// Read the vault file at `path` and hand it to `App::vault_loaded`.
    LoadVault { path: String },
}

/// The view of an environment variable: name and optional value.
pub type VarView = (Seq<char>, Option<Seq<char>>);

pub open spec fn var_view(v: EnvVar) -> VarView {
    (v.name@, opt_view(v.value))
}

pub open spec fn vars_view(s: Seq<EnvVar>) -> Seq<VarView> {
    s.map_values(|v: EnvVar| var_view(v))
}

/// What an effect asks for, in terms of plain values.
pub enum EffectView {
    FetchProjects { server_url: Seq<char>, api_key: Seq<char> },
    FetchEnvVars { server_url: Seq<char>, api_key: Seq<char>, guid: Seq<char> },
    FetchForSync { server_url: Seq<char>, api_key: Seq<char>, guid: Seq<char> },
    PushEnvVars {
        server_url: Seq<char>,
        api_key: Seq<char>,
        guid: Seq<char>,
        vars: Seq<VarView>,
        purpose: PushPurpose,
    },
    SaveConfig,
    SaveVault,
    LoadVault { path: Seq<char> },
}

pub open spec fn effect_view(e: Effect) -> EffectView {
    match e {
        Effect::FetchProjects { server_url, api_key } => EffectView::FetchProjects {
            server_url: server_url@,
            api_key: api_key@,
        },
        Effect::FetchEnvVars { server_url, api_key, guid } => EffectView::FetchEnvVars {
            server_url: server_url@,
            api_key: api_key@,
            guid: guid@,
        },
        Effect::FetchForSync { server_url, api_key, guid } => EffectView::FetchForSync {
            server_url: server_url@,
            api_key: api_key@,
            guid: guid@,
        },
        Effect::PushEnvVars { server_url, api_key, guid, vars, purpose } => EffectView::PushEnvVars {
            server_url: server_url@,
            api_key: api_key@,
            guid: guid@,
            vars: vars_view(vars@),
            purpose,
        },
        Effect::SaveConfig => EffectView::SaveConfig,
        Effect::SaveVault => EffectView::SaveVault,
        Effect::LoadVault { path } => EffectView::LoadVault { path: path@ },
    }
}

pub open spec fn effects_view(s: Seq<Effect>) -> Seq<EffectView> {
    s.map_values(|e: Effect| effect_view(e))
}

// ---------------------------------------------------------------------------
// Keys
// ---------------------------------------------------------------------------

/// The keys the interface reacts to.
#[derive(Debug, Clone, Copy, PartialEq, Eq, Structural)]
pub enum KeyCode {
    Char(char),
    Enter,
    Esc,
    Tab,
    Backspace,
    Delete,
    Up,
    Down,
    Left,
    Right,
    Other,
}

/// A key press, with whether Control was held.
#[derive(Debug, Clone, Copy, PartialEq, Eq, Structural)]
pub struct KeyInput {
    pub code: KeyCode,
    pub ctrl: bool,
}

impl KeyInput {
    /// A key pressed without modifiers.
    pub fn plain(code: KeyCode) -> (k: KeyInput)
        ensures
            k == (KeyInput { code, ctrl: false }),
    {
        KeyInput { code, ctrl: false }
    }

    /// A key pressed with Control held.
    pub fn control(code: KeyCode) -> (k: KeyInput)
        ensures
            k == (KeyInput { code, ctrl: true }),
    {
        KeyInput { code, ctrl: true }
    }
}

/// A terminal input event.
#[derive(Debug, Clone, Copy, PartialEq, Eq, Structural)]
pub enum InputEvent {
    Key(KeyInput),
    /// Anything else (a resize, a mouse event): the state ignores it.
    Other,
}

// ---------------------------------------------------------------------------
// The state
// ---------------------------------------------------------------------------

/// The frames of the loading spinner.
pub const SPINNER_FRAME_COUNT: usize = 10;

/// How many ticks a status message stays (16 ticks of 250 ms: 4 seconds).
pub const STATUS_TICKS: u8 = 16;

/// The number of rows on the Settings page: server URL, API key, vault path
/// and theme.
pub const SETTINGS_FIELD_COUNT: usize = 4;

pub struct App {
    pub page: Page,
    pub projects: Vec<ProjectEntry>,
    pub env_var_rows: Vec<EnvVarRow>,
    pub vault: Vault,
    pub config: Config,
    pub should_quit: bool,
    /// true: the sidebar has focus; false: the page content has it.
    pub sidebar_focused: bool,
    pub project_list_selected: usize,
    /// GUIDs of projects shown with their variables.
    pub project_expanded: StringSet,
    /// None: the cursor is on the project row; Some(n): on its n-th variable.
    pub project_var_selected: Option<usize>,
    /// The sync confirmation: None when hidden, else the names of the
    /// projects the sync will write to.
    pub sync_confirm: Option<Vec<String>>,
    pub add_var_popup: Option<AddVarPopup>,
    /// Set when a key asks for the external editor; the program takes it.
    pub open_editor_for: Option<EditorTarget>,
    pub palette: Palette,
    pub env_var_selected: usize,
    /// The key shown in the "projects using this variable" popup.
    pub env_var_detail: Option<String>,
    pub vault_selected: usize,
    pub vault_editing: Option<usize>,
    pub vault_edit_buffer: String,
    pub vault_edit_field: VaultField,
    pub settings_selected: usize,
    pub settings_editing: bool,
    pub settings_edit_buffer: String,
    pub filter_query: String,
    pub filter_editing: bool,
    pub filter_selected: usize,
    /// (message, level, ticks remaining)
    pub status_message: Option<(String, StatusLevel, u8)>,
    pub load_state: LoadState,
    pub pending_fetches: usize,
    pub spinner_frame: usize,
}

/// The spinner glyph of frame `i`.
pub open spec fn spinner_glyph(i: int) -> Seq<char> {
    if i == 0 {
        "⠋"@
    } else if i == 1 {
        "⠙"@
    } else if i == 2 {
        "⠹"@
    } else if i == 3 {
        "⠸"@
    } else if i == 4 {
        "⠼"@
    } else if i == 5 {
        "⠴"@
    } else if i == 6 {
        "⠦"@
    } else if i == 7 {
        "⠧"@
    } else if i == 8 {
        "⠇"@
    } else {
        "⠏"@
    }
}

/// One clock tick from `s0` to `s1`: the spinner moves to its next frame,
/// a status message's count falls by one, and a message whose count is
/// already zero disappears; nothing else changes.
pub open spec fn ticked(s0: App, s1: App) -> bool {
    &&& s1.spinner_frame == (s0.spinner_frame + 1) % (SPINNER_FRAME_COUNT as int)
    &&& s1.status_message == match s0.status_message {
        Some((m, l, t)) => if t > 0 {
            Some((m, l, (t - 1) as u8))
        } else {
            None
        },
        None => None,
    }
    &&& s1 == (App { spinner_frame: s1.spinner_frame, status_message: s1.status_message, ..s0 })
}

/// Over a run of ticks the spinner cycles through its ten frames, and a
/// message just shown counts down from `STATUS_TICKS` and is gone one tick
/// after its count reaches zero (about four seconds at four ticks a second).
pub proof fn law_ticks(run: Seq<App>, m: String, l: StatusLevel)
    requires
        run.len() > 0,
        forall|i: int| 0 <= i < run.len() - 1 ==> #[trigger] ticked(run[i], run[i + 1]),
        run[0].status_message == Some((m, l, STATUS_TICKS)),
        run[0].spinner_frame < SPINNER_FRAME_COUNT,
    ensures
        forall|k: int| 0 <= k < run.len() ==> #[trigger] run[k].spinner_frame == (run[0].spinner_frame + k) % (SPINNER_FRAME_COUNT as int),
        forall|k: int| 0 <= k < run.len() && k <= STATUS_TICKS ==> #[trigger] run[k].status_message == Some((m, l, (STATUS_TICKS - k) as u8)),
        forall|k: int| STATUS_TICKS < k < run.len() ==> #[trigger] run[k].status_message is None,
    decreases run.len(),
{
    if run.len() > 1 {
        let init = run.drop_last();
        assert forall|j: int| 0 <= j < init.len() - 1 implies #[trigger] ticked(init[j], init[j + 1]) by {
            assert(ticked(run[j], run[j + 1]));
        }
        law_ticks(init, m, l);
        let k = run.len() - 1;
        let i = k - 1;
        assert(ticked(run[i], run[i + 1]));
        assert(i + 1 == k);
        assert(init[k - 1] == run[k - 1]);
        assert((run[0].spinner_frame + k - 1) % 10 + 1 < 11);
        assert(((run[0].spinner_frame + k - 1) % 10 + 1) % 10 == (run[0].spinner_frame + k) % 10) by (nonlinear_arith);
        assert forall|j: int| 0 <= j < run.len() implies #[trigger] run[j].spinner_frame == (run[0].spinner_frame + j) % (SPINNER_FRAME_COUNT as int) by {
            if j < k {
                assert(init[j] == run[j]);
            }
        }
        assert forall|j: int| 0 <= j < run.len() && j <= STATUS_TICKS implies #[trigger] run[j].status_message == Some((m, l, (STATUS_TICKS - j) as u8)) by {
            if j < k {
                assert(init[j] == run[j]);
            }
        }
        assert forall|j: int| STATUS_TICKS < j < run.len() implies #[trigger] run[j].status_message is None by {
            if j < k {
                assert(init[j] == run[j]);
            }
        }
    }
}

/// The display name of a project: its title, else its name.
pub open spec fn display_name(p: ProjectEntry) -> Seq<char> {
    match p.title {
        Some(t) => t@,
        None => p.name@,
    }
}

/// The position of the first project with `guid`, or -1.
pub open spec fn project_pos(ps: Seq<ProjectEntry>, guid: Seq<char>) -> int
    decreases ps.len(),
{
    if ps.len() == 0 {
        -1
    } else if ps[0].guid@ == guid {
        0
    } else {
        let r = project_pos(ps.drop_first(), guid);
        if r < 0 {
            -1
        } else {
            r + 1
        }
    }
}

pub proof fn lemma_project_pos(ps: Seq<ProjectEntry>, guid: Seq<char>)
    ensures
        -1 <= project_pos(ps, guid) < ps.len(),
        project_pos(ps, guid) >= 0 ==> ps[project_pos(ps, guid)].guid@ == guid,
        project_pos(ps, guid) >= 0 ==> forall|i: int|
            0 <= i < project_pos(ps, guid) ==> ps[i].guid@ != guid,
        project_pos(ps, guid) < 0 ==> forall|i: int| 0 <= i < ps.len() ==> ps[i].guid@ != guid,
    decreases ps.len(),
{
    if ps.len() > 0 && ps[0].guid@ != guid {
        lemma_project_pos(ps.drop_first(), guid);
        assert forall|i: int| 1 <= i < ps.len() implies ps[i] == ps.drop_first()[i - 1] by {}
    }
}

/// The value a variable is sent with when a project is patched: the vault
/// value when the vault has one, else the value it had.
pub open spec fn overlay(v: EnvVar, vault: Entries) -> VarView {
    match lookup(vault, v.name@) {
        Some(x) => (v.name@, Some(x)),
        None => (v.name@, opt_view(v.value)),
    }
}

/// The status line's content.
pub open spec fn status_view(s: Option<(String, StatusLevel, u8)>) -> Option<(Seq<char>, StatusLevel, u8)> {
    match s {
        Some((m, l, t)) => Some((m@, l, t)),
        None => None,
    }
}

impl App {
    /// The initial state, given the loaded configuration and vault.
    pub fn new(config: Config, vault: Vault) -> (app: App)
        ensures
            app.page == Page::ProjectList,
            app.projects@.len() == 0,
            app.env_var_rows@.len() == 0,
            app.vault == vault,
            app.config == config,
            !app.should_quit,
            app.sidebar_focused,
            app.project_list_selected == 0,
            app.project_expanded@ == Set::<Seq<char>>::empty(),
            app.project_var_selected is None,
            app.sync_confirm is None,
            app.add_var_popup is None,
            app.open_editor_for is None,
            app.palette.variant_of() == config.theme,
            app.env_var_selected == 0,
            app.env_var_detail is None,
            app.vault_selected == 0,
            app.vault_editing is None,
            app.vault_edit_buffer@.len() == 0,
            app.vault_edit_field == VaultField::Value,
            app.settings_selected == 0,
            !app.settings_editing,
            app.settings_edit_buffer@.len() == 0,
            app.filter_query@.len() == 0,
            !app.filter_editing,
            app.filter_selected == 0,
            app.status_message is None,
            app.load_state is Idle,
            app.pending_fetches == 0,
            app.spinner_frame == 0,
    {
        let palette = Palette::new(config.theme);
        App {
            page: Page::ProjectList,
            projects: Vec::new(),
            env_var_rows: Vec::new(),
            vault,
            config,
            should_quit: false,
            sidebar_focused: true,
            project_list_selected: 0,
            project_expanded: StringSet::new(),
            project_var_selected: None,
            sync_confirm: None,
            add_var_popup: None,
            open_editor_for: None,
            palette,
            env_var_selected: 0,
            env_var_detail: None,
            vault_selected: 0,
            vault_editing: None,
            vault_edit_buffer: String::new(),
            vault_edit_field: VaultField::Value,
            settings_selected: 0,
            settings_editing: false,
            settings_edit_buffer: String::new(),
            filter_query: String::new(),
            filter_editing: false,
            filter_selected: 0,
            status_message: None,
            load_state: LoadState::Idle,
            pending_fetches: 0,
            spinner_frame: 0,
        }
    }

    /// Advances the spinner and counts down the status message; a message
    /// whose count is already zero disappears.
    pub fn on_tick(&mut self)
        ensures
            ticked(*old(self), *final(self)),
    {
        let f = self.spinner_frame;
        let next_frame = (f % SPINNER_FRAME_COUNT + 1) % SPINNER_FRAME_COUNT;
        assert(next_frame == (f + 1) % 10) by (nonlinear_arith)
            requires
                next_frame == (f % 10 + 1) % 10,
        {
        }
        self.spinner_frame = next_frame;
        let next = match self.status_message.take() {
            Some((m, l, t)) => if t > 0 {
                Some((m, l, t - 1))
            } else {
                None
            },
            None => None,
        };
        self.status_message = next;
    }

    /// The spinner's current frame.
    pub fn spinner(&self) -> (r: &'static str)
        requires
            self.spinner_frame < SPINNER_FRAME_COUNT,
        ensures
            r@ == spinner_glyph(self.spinner_frame as int),
    {
        let frames: [&'static str; 10] = ["⠋", "⠙", "⠹", "⠸", "⠼", "⠴", "⠦", "⠧", "⠇", "⠏"];
        frames[self.spinner_frame]
    }

    /// Shows `message` in the status line for four seconds.
    pub fn set_status(&mut self, message: String, level: StatusLevel)
        ensures
            *final(self) == (App { status_message: Some((message, level, STATUS_TICKS)), ..*old(self) }),
    {
        self.status_message = Some((message, level, STATUS_TICKS));
    }
}

} // verus!
