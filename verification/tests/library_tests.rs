use posit_connect_secrets_manager::api::{decode_env_vars, vars_from_names, ConnectClient};
use posit_connect_secrets_manager::app::{
    App, AppEvent, Effect, EnvVarRow, InputEvent, KeyCode, KeyInput, LoadState, Page, ProjectEntry, StatusLevel,
};
use posit_connect_secrets_manager::clock::is_refresh_due;
use posit_connect_secrets_manager::config::{Config, ExclusionMap};
use posit_connect_secrets_manager::model::{ContentItem, EnvVar};
use posit_connect_secrets_manager::text::{clip_to_bytes, decimal_string, prefix_chars, without_final_newline, without_trailing_slashes};
use posit_connect_secrets_manager::theme::{StyleRole, ThemeVariant};
use posit_connect_secrets_manager::vault::Vault;
use posit_connect_secrets_manager::view::{border_role, centered, mask_value, Area, StatusLine};

fn env_var(name: &str) -> EnvVar {
    EnvVar { name: name.to_string(), value: None }
}

fn project(guid: &str, name: &str, vars: Vec<EnvVar>) -> ProjectEntry {
    ProjectEntry {
        guid: guid.to_string(),
        name: name.to_string(),
        title: None,
        env_vars: vars,
        load_state: LoadState::Idle,
    }
}

fn config() -> Config {
    Config {
        server_url: "http://connect.test/".into(),
        api_key: "key".into(),
        vault_path: String::new(),
        last_refresh: None,
        included_projects: Vec::new(),
        excluded_vars: ExclusionMap::new(),
        theme: ThemeVariant::Inherit,
    }
}

fn app_with(projects: Vec<ProjectEntry>, vault: Vault) -> App {
    let mut app = App::new(config(), vault);
    app.projects = projects;
    app.sidebar_focused = false;
    app
}

fn key(app: &mut App, code: KeyCode) -> Vec<Effect> {
    app.handle_crossterm_event(InputEvent::Key(KeyInput::plain(code)))
}

fn keys_of(v: &Vault) -> Vec<String> {
    (0..v.len()).map(|i| v.key_at(i).unwrap()).collect()
}

// ---------------------------------------------------------------------------
// Vault
// ---------------------------------------------------------------------------

#[test]
fn loaded_vault_is_sorted_ignoring_case_and_stable() {
    let pairs = vec![
        ("b".to_string(), "1".to_string()),
        ("A".to_string(), "2".to_string()),
        ("a".to_string(), "3".to_string()),
    ];
    let v = Vault::from_loaded("/tmp/v.json".into(), pairs);
    assert_eq!(keys_of(&v), vec!["A", "a", "b"]);
    assert!(!v.dirty);
    assert_eq!(v.path, "/tmp/v.json");
}

#[test]
fn sort_lower_cases_before_comparing() {
    // In code-point order 'B' comes before 'a'; lower-cased, 'a' comes first.
    let pairs = vec![("B".to_string(), "1".to_string()), ("a".to_string(), "2".to_string())];
    let v = Vault::from_loaded(String::new(), pairs);
    assert_eq!(keys_of(&v), vec!["a", "B"]);
}

#[test]
fn loaded_duplicate_keys_keep_the_last_value() {
    let pairs = vec![("x".to_string(), "1".to_string()), ("x".to_string(), "2".to_string())];
    let v = Vault::from_loaded(String::new(), pairs);
    assert_eq!(v.len(), 1);
    assert_eq!(v.get("x"), Some("2"));
}

#[test]
fn read_after_write_and_remove() {
    let mut v = Vault::load_empty();
    v.set("K".into(), "one".into());
    v.set("L".into(), "two".into());
    v.set("K".into(), "three".into());
    assert_eq!(v.get("K"), Some("three"));
    assert_eq!(v.get("L"), Some("two"));
    assert_eq!(v.position("K"), Some(0));
    v.remove_key("K");
    assert_eq!(v.get("K"), None);
    assert_eq!(v.get("L"), Some("two"));
    assert_eq!(v.position("L"), Some(0));
}

#[test]
fn remove_at_out_of_range_changes_nothing() {
    let mut v = Vault::load_empty();
    v.set("A".into(), "1".into());
    v.remove_at(5);
    assert_eq!(v.len(), 1);
    assert!(!v.dirty);
    v.remove_at(0);
    assert_eq!(v.len(), 0);
    assert!(v.dirty);
}

#[test]
fn a_vault_without_path_has_no_file() {
    let mut v = Vault::load_empty();
    assert!(!v.has_file());
    v.dirty = true;
    v.mark_saved();
    assert!(!v.dirty);
    let w = Vault::from_loaded("vault.json".into(), vec![]);
    assert!(w.has_file());
}

// ---------------------------------------------------------------------------
// Text helpers
// ---------------------------------------------------------------------------

#[test]
fn text_helpers_exact_values() {
    assert_eq!(decimal_string(0), "0");
    assert_eq!(decimal_string(1234), "1234");
    assert_eq!(prefix_chars("0123456789abc", 8), "01234567");
    assert_eq!(prefix_chars("abc", 8), "abc");
    assert_eq!(without_trailing_slashes("https://x.test///"), "https://x.test");
    assert_eq!(without_final_newline("value\n"), "value");
    assert_eq!(without_final_newline("value\n\n"), "value\n");
}

// ---------------------------------------------------------------------------
// API endpoints
// ---------------------------------------------------------------------------

#[test]
fn client_urls_and_header() {
    let c = ConnectClient::new("https://connect.example.com//", "abc");
    assert_eq!(c.base_url(), "https://connect.example.com");
    assert_eq!(c.auth_header(), "Key abc");
    assert_eq!(c.content_url(), "https://connect.example.com/__api__/v1/content");
    assert_eq!(
        c.environment_url("g-1"),
        "https://connect.example.com/__api__/v1/content/g-1/environment"
    );
}

#[test]
fn names_become_variables_without_values() {
    let vars = vars_from_names(vec!["A".into(), "B".into()]);
    assert_eq!(vars.len(), 2);
    assert_eq!(vars[1].name, "B");
    assert!(vars.iter().all(|v| v.value.is_none()));
}

// ---------------------------------------------------------------------------
// Clock and refresh
// ---------------------------------------------------------------------------

#[test]
fn refresh_is_due_exactly_when_old_or_unknown() {
    assert!(is_refresh_due(&None, None));
    assert!(is_refresh_due(&Some("bad".into()), None));
    assert!(is_refresh_due(&Some("t".into()), Some(24)));
    assert!(!is_refresh_due(&Some("t".into()), Some(23)));
}

#[test]
fn auto_refresh_with_a_fresh_stamp_fetches_nothing() {
    let mut app = app_with(vec![], Vault::load_empty());
    app.config.last_refresh = Some("2024-01-01T00:00:00+00:00".into());
    let effects = app.refresh_if_due(Some(1));
    assert!(effects.is_empty());
    let effects = app.refresh_if_due(Some(30));
    assert!(matches!(effects.as_slice(), [Effect::FetchProjects { .. }]));
}

#[test]
fn auto_refresh_parses_the_stamp() {
    // An unreadable stamp makes a refresh due; the parse goes through chrono.
    let mut app = app_with(vec![], Vault::load_empty());
    app.config.last_refresh = Some("not a time".into());
    let effects = app.check_auto_refresh();
    assert!(matches!(effects.as_slice(), [Effect::FetchProjects { .. }]));
    let mut app = app_with(vec![], Vault::load_empty());
    app.config.last_refresh = Some("2999-01-01T00:00:00+00:00".into());
    let effects = app.check_auto_refresh();
    assert!(effects.is_empty());
}

// ---------------------------------------------------------------------------
// Events
// ---------------------------------------------------------------------------

#[test]
fn fetched_projects_record_the_given_time() {
    let mut app = app_with(vec![], Vault::load_empty());
    let items = vec![ContentItem { guid: "g".into(), name: "n".into(), title: None, app_role: Some("owner".into()) }];
    app.handle_app_event_at(AppEvent::ProjectsFetched(items), "2024-05-01T00:00:00+00:00".into());
    assert_eq!(app.config.last_refresh.as_deref(), Some("2024-05-01T00:00:00+00:00"));
}

#[test]
fn fetched_projects_keep_owned_and_edited_items_and_ask_for_their_variables() {
    let mut app = app_with(vec![], Vault::load_empty());
    let items = vec![
        ContentItem { guid: "g1".into(), name: "one".into(), title: None, app_role: Some("owner".into()) },
        ContentItem { guid: "g0".into(), name: "seen".into(), title: None, app_role: Some("viewer".into()) },
        ContentItem { guid: "g2".into(), name: "two".into(), title: Some("Two".into()), app_role: Some("editor".into()) },
    ];
    let effects = app.handle_app_event(AppEvent::ProjectsFetched(items));
    assert_eq!(app.projects.len(), 2);
    assert_eq!(app.pending_fetches, 2);
    assert_eq!(effects.len(), 3);
    assert!(matches!(effects[2], Effect::SaveConfig));
    assert!(app.config.last_refresh.is_some());
    match &effects[1] {
        Effect::FetchEnvVars { guid, .. } => assert_eq!(guid, "g2"),
        _ => panic!("expected a variable fetch"),
    }
}

#[test]
fn fetch_error_sets_error_state() {
    let mut app = app_with(vec![], Vault::load_empty());
    app.handle_app_event(AppEvent::FetchError("boom".into()));
    assert!(matches!(app.load_state, LoadState::Error(_)));
    let (_, level, _) = app.status_message.clone().unwrap();
    assert_eq!(level, StatusLevel::Error);
}

#[test]
fn editor_text_is_stored_without_final_newline() {
    let mut app = app_with(vec![], Vault::load_empty());
    let effects = app.apply_editor_value("TOKEN".into(), "abc\n".into());
    assert_eq!(app.vault.get("TOKEN"), Some("abc"));
    assert!(matches!(effects.as_slice(), [Effect::SaveVault]));
}

#[test]
fn vault_load_failure_keeps_the_old_vault() {
    let mut v = Vault::load_empty();
    v.set("A".into(), "1".into());
    let mut app = app_with(vec![], v);
    app.vault_loaded(Err("unreadable".into()));
    assert_eq!(app.vault.get("A"), Some("1"));
}

// ---------------------------------------------------------------------------
// Laws on concrete values
// ---------------------------------------------------------------------------

#[test]
fn sync_is_idempotent_on_an_example() {
    let mut app = app_with(vec![project("g", "p", vec![env_var("A"), env_var("B"), env_var("C")])], {
        let mut v = Vault::load_empty();
        v.set("A".into(), "1".into());
        v.set("C".into(), "3".into());
        v
    });
    app.config.included_projects = vec!["g".into()];
    let first = app.compute_sync_payloads();
    assert_eq!(first.len(), 1);
    let sent: Vec<EnvVar> = first[0].1.clone();
    app.projects[0].env_vars = sent;
    let second = app.compute_sync_payloads();
    assert_eq!(second.len(), 1);
    let names = |p: &Vec<EnvVar>| p.iter().map(|v| (v.name.clone(), v.value.clone())).collect::<Vec<_>>();
    assert_eq!(names(&first[0].1), names(&second[0].1));
}

#[test]
fn toggling_the_whitelist_twice_restores_it() {
    let mut c = config();
    c.included_projects = vec!["a".into(), "b".into()];
    c.toggle_included("c".into());
    c.toggle_included("c".into());
    assert_eq!(c.included_projects, vec!["a", "b"]);
    c.toggle_included("a".into());
    assert_eq!(c.included_projects, vec!["b"]);
    c.toggle_included("a".into());
    assert_eq!(c.included_projects, vec!["b", "a"]);
}

#[test]
fn confirmation_takes_every_key() {
    let mut app = app_with(vec![], Vault::load_empty());
    app.sync_confirm = Some(vec!["p".into()]);
    let before_page = app.page;
    let effects = key(&mut app, KeyCode::Char('x'));
    assert!(effects.is_empty());
    assert!(app.sync_confirm.is_some());
    assert_eq!(app.page, before_page);
    assert!(!app.should_quit);
}

#[test]
fn ctrl_u_only_opens_the_confirmation() {
    let mut app = app_with(vec![project("g", "p", vec![env_var("A")])], {
        let mut v = Vault::load_empty();
        v.set("A".into(), "1".into());
        v
    });
    app.config.included_projects = vec!["g".into()];
    let effects = app.handle_key(KeyInput::control(KeyCode::Char('u')));
    assert!(effects.is_empty());
    assert_eq!(app.sync_confirm, Some(vec!["p".to_string()]));
    let effects = key(&mut app, KeyCode::Char('y'));
    assert_eq!(effects.len(), 1);
    assert!(matches!(&effects[0], Effect::FetchForSync { guid, .. } if guid == "g"));
}

#[test]
fn sync_pushes_vault_values_onto_the_fetched_variables() {
    let mut vault = Vault::load_empty();
    vault.set("A".into(), "1".into());
    vault.set("NEW".into(), "2".into());
    vault.set("SKIP".into(), "3".into());
    let mut app = app_with(vec![project("g", "p", vec![env_var("A")])], vault);
    app.config.included_projects = vec!["g".into()];
    app.config.excluded_vars.insert("g".into(), vec!["SKIP".into()]);
    // The project gained variables since the list was fetched.
    let fetched = vec![env_var("A"), env_var("NEW"), env_var("OTHER"), env_var("SKIP")];
    let effects = app.handle_app_event(AppEvent::SyncVarsFetched { guid: "g".into(), vars: fetched });
    assert_eq!(effects.len(), 1);
    match &effects[0] {
        Effect::PushEnvVars { guid, vars, purpose, .. } => {
            assert_eq!(guid, "g");
            assert_eq!(*purpose, posit_connect_secrets_manager::app::PushPurpose::Sync);
            let sent: Vec<(String, Option<String>)> = vars.iter().map(|v| (v.name.clone(), v.value.clone())).collect();
            assert_eq!(sent, vec![("A".to_string(), Some("1".to_string())), ("NEW".to_string(), Some("2".to_string()))]);
        },
        _ => panic!("expected a push"),
    }
    // Nothing to overlay: nothing is pushed.
    let effects = app.handle_app_event(AppEvent::SyncVarsFetched { guid: "g".into(), vars: vec![env_var("OTHER")] });
    assert!(effects.is_empty());
    app.handle_app_event(AppEvent::SyncFetchFailed { guid: "g".into(), error: "down".into() });
    assert_eq!(app.status_message.as_ref().unwrap().0, "Sync failed: down");
}

#[test]
fn page_index_round_trip() {
    for i in 0..4 {
        assert_eq!(Page::from_index(i).index(), i);
    }
    assert_eq!(Page::from_index(9), Page::ProjectList);
    assert_eq!(Page::Vault.label(), "Vault");
}

#[test]
fn theme_cycles_through_three() {
    let t = ThemeVariant::Inherit;
    assert_eq!(t.next(), ThemeVariant::OneDark);
    assert_eq!(t.next().next(), ThemeVariant::SkyOrange);
    assert_eq!(t.next().next().next(), ThemeVariant::Inherit);
    assert_eq!(ThemeVariant::SkyOrange.config_name(), "sky-orange");
}

#[test]
fn env_rows_have_distinct_sorted_keys() {
    let mut app = app_with(
        vec![
            project("g1", "p1", vec![env_var("Z"), env_var("A")]),
            project("g2", "p2", vec![env_var("A"), env_var("M")]),
        ],
        Vault::load_empty(),
    );
    app.config.included_projects = vec!["g1".into()];
    app.rebuild_env_var_rows();
    let keys: Vec<&str> = app.env_var_rows.iter().map(|r| r.key.as_str()).collect();
    // Every project's names count, whitelisted or not.
    assert_eq!(keys, vec!["A", "M", "Z"]);
}

#[test]
fn tick_wraps_the_spinner_and_expires_messages() {
    let mut app = app_with(vec![], Vault::load_empty());
    app.spinner_frame = 9;
    app.set_status("hi".into(), StatusLevel::Info);
    app.on_tick();
    assert_eq!(app.spinner_frame, 0);
    assert_eq!(app.status_message.as_ref().unwrap().2, 15);
    for _ in 0..16 {
        app.on_tick();
    }
    assert!(app.status_message.is_none());
}

// ---------------------------------------------------------------------------
// Screen contents
// ---------------------------------------------------------------------------

#[test]
fn masking_shows_a_bullet_per_byte_up_to_32() {
    assert_eq!(mask_value(""), "");
    assert_eq!(mask_value("secret"), "●●●●●●");
    assert_eq!(mask_value(&"x".repeat(40)).chars().count(), 32);
}

#[test]
fn centered_box_is_cut_to_the_screen() {
    let screen = Area { x: 0, y: 0, width: 100, height: 40 };
    assert_eq!(centered(screen, 52, 16), Area { x: 24, y: 12, width: 52, height: 16 });
    let small = Area { x: 2, y: 1, width: 30, height: 10 };
    assert_eq!(centered(small, 52, 16), Area { x: 2, y: 1, width: 30, height: 10 });
    assert_eq!(border_role(true), StyleRole::Accent);
    assert_eq!(border_role(false), StyleRole::Border);
}

#[test]
fn sidebar_marks_the_current_page() {
    let mut app = app_with(vec![], Vault::load_empty());
    app.sidebar_focused = true;
    app.page = Page::Vault;
    let lines = app.sidebar_lines();
    let texts: Vec<&str> = lines.iter().map(|l| l.text.as_str()).collect();
    assert_eq!(texts, vec!["   Projects", "   Env Vars", " ▶ Vault", "   Settings"]);
    assert_eq!(lines[2].role, StyleRole::Selected);
    app.sidebar_focused = false;
    assert_eq!(app.sidebar_lines()[2].text, " · Vault");
}

#[test]
fn status_line_shows_message_or_hints() {
    let mut app = app_with(vec![], Vault::load_empty());
    app.page = Page::Settings;
    match app.status_line() {
        StatusLine::Hints { spinner, hints } => {
            assert_eq!(spinner, "  ");
            assert_eq!(hints, "Tab:Sidebar  ↑↓:Nav  Enter/e:Edit  ←/Esc:Sidebar  Ctrl+C:Quit");
        },
        _ => panic!("expected hints"),
    }
    app.load_state = LoadState::Loading;
    app.spinner_frame = 1;
    match app.status_line() {
        StatusLine::Hints { spinner, .. } => assert_eq!(spinner, "⠙ "),
        _ => panic!("expected hints"),
    }
    app.set_status("Saved".into(), StatusLevel::Success);
    match app.status_line() {
        StatusLine::Message { text, role } => {
            assert_eq!(text, "  Saved");
            assert_eq!(role, StyleRole::Success);
        },
        _ => panic!("expected a message"),
    }
}

#[test]
fn filter_bar_shows_while_typing() {
    let mut app = app_with(vec![], Vault::load_empty());
    assert!(app.filter_bar().is_none());
    app.filter_editing = true;
    app.filter_query = "db".into();
    let l = app.filter_bar().unwrap();
    assert_eq!(l.text, " / db█");
    assert_eq!(l.role, StyleRole::Accent);
    app.filter_editing = false;
    assert_eq!(app.filter_bar().unwrap().text, " / db");
}

#[test]
fn project_list_rows_and_cursor() {
    let mut vault = Vault::load_empty();
    vault.set("VAR1".into(), "abc".into());
    let mut app = app_with(
        vec![
            project("guid-aaaaaaaaaa", "proj-a", vec![env_var("VAR1"), env_var("VAR2")]),
            project("guid-b", "proj-b", vec![env_var("OTHER")]),
        ],
        vault,
    );
    app.config.included_projects = vec!["guid-aaaaaaaaaa".into()];
    app.project_expanded.insert("guid-aaaaaaaaaa".into());
    app.project_var_selected = Some(1);
    let view = app.project_list_view();
    assert_eq!(view.title, " Projects (2) ");
    let texts: Vec<&str> = view.lines.iter().map(|l| l.text.as_str()).collect();
    assert_eq!(
        texts,
        vec![
            "  ▾ [✓] proj-a  guid-aaa",
            "      🔗 http://connect.test/connect/#/apps/guid-aaaaaaaaaa",
            "      ● VAR1 = ●●●",
            "      ○ VAR2  [NOT IN VAULT]",
            "  ▸ [ ] proj-b  guid-b",
        ]
    );
    assert_eq!(view.highlight, Some(3));
    assert_eq!(view.lines[3].role, StyleRole::Selected);
    assert_eq!(view.lines[2].role, StyleRole::Success);
    assert_eq!(view.lines[4].role, StyleRole::Dim);
    // The cursor row is the selected project's row when no variable is selected.
    app.project_var_selected = None;
    app.project_list_selected = 1;
    let view = app.project_list_view();
    assert_eq!(view.highlight, Some(4));
    assert_eq!(view.lines[4].role, StyleRole::Selected);
}

#[test]
fn empty_project_list_explains_itself() {
    let mut app = app_with(vec![], Vault::load_empty());
    let view = app.project_list_view();
    assert_eq!(view.lines[0].text, "  No projects loaded. Press Ctrl+P to refresh.");
    assert_eq!(view.highlight, None);
    app.load_state = LoadState::Error("down".into());
    assert_eq!(app.project_list_view().lines[0].text, "  ✗ Error: down");
}

#[test]
fn filtered_project_list_counts_only_kept_rows() {
    let mut app = app_with(
        vec![project("a", "alpha", vec![]), project("b", "bravo", vec![]), project("c", "charlie", vec![])],
        Vault::load_empty(),
    );
    app.filter_query = "^[bc]".into();
    app.filter_selected = 1;
    let view = app.project_list_view();
    assert_eq!(view.lines.len(), 2);
    assert_eq!(view.highlight, Some(1));
    assert!(view.lines[1].text.contains("charlie"));
}

#[test]
fn sync_modal_lists_ten_names_then_a_count() {
    let mut app = app_with(vec![], Vault::load_empty());
    app.sync_confirm = Some((0..12).map(|i| format!("p{}", i)).collect());
    let screen = Area { x: 0, y: 0, width: 100, height: 40 };
    let pop = app.sync_modal(screen).unwrap();
    assert_eq!(pop.title, " Confirm Sync ");
    assert_eq!(pop.area, Area { x: 24, y: 12, width: 52, height: 16 });
    assert_eq!(pop.lines.len(), 16);
    assert_eq!(pop.lines[1].text, "  Syncing vault values to 12 project(s):");
    assert_eq!(pop.lines[3].text, "    • p0");
    assert_eq!(pop.lines[13].text, "    … and 2 more");
    assert_eq!(pop.lines[15].text, "  Enter/y: Confirm    Esc/n: Cancel");
    app.sync_confirm = None;
    assert!(app.sync_modal(screen).is_none());
}

#[test]
fn detail_popup_lists_projects_using_the_key() {
    let mut app = app_with(
        vec![
            project("g1", "one", vec![env_var("FOO")]),
            project("g2", "two", vec![env_var("BAR")]),
            project("g3", "three", vec![env_var("FOO")]),
        ],
        Vault::load_empty(),
    );
    app.config.included_projects = vec!["g1".into()];
    app.env_var_detail = Some("FOO".into());
    let screen = Area { x: 0, y: 0, width: 80, height: 24 };
    let pop = app.env_var_detail_popup(screen).unwrap();
    assert_eq!(pop.title, " Projects using: FOO ");
    let texts: Vec<&str> = pop.lines.iter().map(|l| l.text.as_str()).collect();
    assert_eq!(texts, vec!["  [✓] one", "  [ ] three", "  any key to close"]);
    assert_eq!(pop.area.height, 6);
    app.env_var_detail = Some("NONE".into());
    let pop = app.env_var_detail_popup(screen).unwrap();
    assert_eq!(pop.lines[0].text, "  (no projects have this var)");
}

#[test]
fn add_var_popup_offers_missing_vault_keys() {
    let mut vault = Vault::load_empty();
    vault.set("API_KEY".into(), "1".into());
    vault.set("DB_URL".into(), "2".into());
    vault.set("API_URL".into(), "3".into());
    let mut app = app_with(vec![project("g", "proj", vec![env_var("API_URL")])], vault);
    app.trigger_add_var();
    assert!(app.add_var_popup.is_some());
    let screen = Area { x: 0, y: 0, width: 80, height: 24 };
    let v = app.add_var_view(screen).unwrap();
    assert_eq!(v.title, " Add Env Var → proj ");
    assert_eq!(v.input.text, " > █");
    let items: Vec<&str> = v.items.iter().map(|l| l.text.as_str()).collect();
    assert_eq!(items, vec!["  API_KEY", "  DB_URL"]);
    assert_eq!(v.highlight, Some(0));
    assert_eq!(v.items[0].role, StyleRole::Selected);
}

#[test]
fn vault_table_masks_values_and_marks_changes() {
    let mut vault = Vault::load_empty();
    vault.set("DB_HOST".into(), "localhost".into());
    vault.set("JWT".into(), "xyz".into());
    vault.dirty = true;
    let mut app = app_with(vec![], vault);
    let t = app.vault_table();
    assert_eq!(t.title, " Vault (2 entries) ● ");
    assert_eq!(t.rows[0].value, "●●●●●●●●●");
    assert_eq!(t.rows[0].key_role, StyleRole::Selected);
    assert_eq!(t.highlight, Some(0));
    app.filter_query = "jwt".into();
    let t = app.vault_table();
    assert_eq!(t.title, " Vault (1/2 entries) ● ");
    assert_eq!(t.rows.len(), 1);
    assert_eq!(t.rows[0].key, "JWT");
    app.filter_query = String::new();
    app.vault_editing = Some(1);
    app.vault_edit_buffer = "ab".into();
    let t = app.vault_table();
    assert_eq!(t.rows[1].value, "ab█");
    assert_eq!(t.rows[1].value_role, StyleRole::Selected);
}

#[test]
fn env_var_table_shows_vault_values() {
    let mut app = app_with(vec![], Vault::load_empty());
    app.env_var_rows = vec![
        EnvVarRow { key: "A".into(), vault_value: Some("1".into()) },
        EnvVarRow { key: "B".into(), vault_value: None },
    ];
    app.env_var_selected = 0;
    let t = app.env_var_table();
    assert_eq!(t.title, " Env Vars (2) ");
    assert_eq!(t.rows[0].value, "1");
    assert_eq!(t.rows[0].key_role, StyleRole::Selected);
    assert_eq!(t.rows[1].value, "[NOT IN VAULT]");
    assert_eq!(t.rows[1].value_role, StyleRole::Dim);
}

#[test]
fn settings_mask_the_api_key() {
    let mut app = app_with(vec![], Vault::load_empty());
    app.page = Page::Settings;
    app.settings_selected = 1;
    let (fields, refresh) = app.settings_view();
    assert_eq!(fields.len(), 4);
    assert_eq!(fields[0].value, "http://connect.test/");
    assert_eq!(fields[1].value, "●●●");
    assert_eq!(fields[1].label_role, StyleRole::Accent);
    assert_eq!(fields[3].label, "Theme");
    assert_eq!(fields[3].value, "inherit");
    assert_eq!(refresh, "Never");
    app.settings_editing = true;
    app.settings_edit_buffer = "new".into();
    let (fields, _) = app.settings_view();
    assert_eq!(fields[1].value, "new█");
    assert_eq!(fields[1].value_role, StyleRole::Selected);
}

// ---------------------------------------------------------------------------
// Edit flows
// ---------------------------------------------------------------------------

fn type_text(app: &mut App, s: &str) {
    for c in s.chars() {
        key(app, KeyCode::Char(c));
    }
}

#[test]
fn new_vault_entry_takes_a_key_then_a_value() {
    let mut vault = Vault::load_empty();
    vault.set("A".into(), "1".into());
    vault.set("M".into(), "2".into());
    let mut app = app_with(vec![], vault);
    app.page = Page::Vault;
    key(&mut app, KeyCode::Char('n'));
    assert_eq!(app.vault.len(), 3);
    assert_eq!(app.vault_editing, Some(2));
    type_text(&mut app, "B");
    let effects = key(&mut app, KeyCode::Enter);
    assert!(effects.is_empty());
    assert_eq!(keys_of(&app.vault), vec!["A", "B", "M"]);
    assert_eq!(app.vault_selected, 1);
    assert_eq!(app.vault_editing, Some(1));
    assert_eq!(app.vault_edit_buffer, "");
    type_text(&mut app, "secret");
    let effects = key(&mut app, KeyCode::Enter);
    assert!(matches!(effects.as_slice(), [Effect::SaveVault]));
    assert_eq!(app.vault.get("B"), Some("secret"));
    assert_eq!(app.vault_editing, None);
    assert_eq!(app.vault_edit_buffer, "");
    assert!(app.vault.dirty);
}

#[test]
fn escape_drops_an_unnamed_vault_entry() {
    let mut vault = Vault::load_empty();
    vault.set("A".into(), "1".into());
    let mut app = app_with(vec![], vault);
    app.page = Page::Vault;
    key(&mut app, KeyCode::Char('n'));
    type_text(&mut app, "xy");
    key(&mut app, KeyCode::Backspace);
    assert_eq!(app.vault_edit_buffer, "x");
    key(&mut app, KeyCode::Esc);
    assert_eq!(keys_of(&app.vault), vec!["A"]);
    assert_eq!(app.vault_selected, 0);
    assert_eq!(app.vault_editing, None);
}

#[test]
fn deleting_a_project_variable_sends_the_rest() {
    let mut vault = Vault::load_empty();
    vault.set("B".into(), "vb".into());
    let mut app = app_with(
        vec![project("g", "p", vec![env_var("A"), env_var("B"), EnvVar { name: "C".into(), value: Some("vc".into()) }])],
        vault,
    );
    app.project_expanded.insert("g".into());
    app.project_var_selected = Some(2);
    let effects = key(&mut app, KeyCode::Char('d'));
    assert_eq!(effects.len(), 1);
    match &effects[0] {
        Effect::PushEnvVars { guid, vars, purpose, .. } => {
            assert_eq!(guid, "g");
            assert_eq!(*purpose, posit_connect_secrets_manager::app::PushPurpose::Patch);
            let sent: Vec<(String, Option<String>)> = vars.iter().map(|v| (v.name.clone(), v.value.clone())).collect();
            assert_eq!(sent, vec![("A".to_string(), None), ("B".to_string(), Some("vb".to_string()))]);
        },
        _ => panic!("expected a push"),
    }
    let names: Vec<&str> = app.projects[0].env_vars.iter().map(|v| v.name.as_str()).collect();
    assert_eq!(names, vec!["A", "B"]);
    assert_eq!(app.project_var_selected, Some(1));
    assert_eq!(app.status_message.as_ref().unwrap().0, "Deleting C from project…");
}

#[test]
fn adding_a_variable_picks_a_vault_key() {
    let mut vault = Vault::load_empty();
    vault.set("API_KEY".into(), "k".into());
    vault.set("DB_URL".into(), "d".into());
    let mut app = app_with(vec![project("g", "p", vec![env_var("X")])], vault);
    key(&mut app, KeyCode::Char('a'));
    type_text(&mut app, "db");
    let effects = key(&mut app, KeyCode::Enter);
    assert!(app.add_var_popup.is_none());
    assert_eq!(effects.len(), 1);
    match &effects[0] {
        Effect::PushEnvVars { vars, .. } => {
            let sent: Vec<(String, Option<String>)> = vars.iter().map(|v| (v.name.clone(), v.value.clone())).collect();
            assert_eq!(sent, vec![("X".to_string(), None), ("DB_URL".to_string(), Some("d".to_string()))]);
        },
        _ => panic!("expected a push"),
    }
    let names: Vec<&str> = app.projects[0].env_vars.iter().map(|v| v.name.as_str()).collect();
    assert_eq!(names, vec!["X", "DB_URL"]);
}

#[test]
fn settings_edit_saves_and_a_new_vault_path_loads() {
    let mut app = app_with(vec![], Vault::load_empty());
    app.page = Page::Settings;
    app.settings_selected = 2;
    key(&mut app, KeyCode::Enter);
    assert!(app.settings_editing);
    type_text(&mut app, "v.json");
    let effects = key(&mut app, KeyCode::Enter);
    assert_eq!(app.config.vault_path, "v.json");
    assert!(!app.settings_editing);
    assert_eq!(effects.len(), 2);
    assert!(matches!(&effects[0], Effect::LoadVault { path } if path == "v.json"));
    assert!(matches!(effects[1], Effect::SaveConfig));
    assert_eq!(app.status_message.as_ref().unwrap().0, "Settings saved");
}

#[test]
fn theme_row_cycles_the_theme() {
    let mut app = app_with(vec![], Vault::load_empty());
    app.page = Page::Settings;
    app.settings_selected = 3;
    let effects = key(&mut app, KeyCode::Enter);
    assert_eq!(app.config.theme, ThemeVariant::OneDark);
    assert_eq!(app.palette.variant(), ThemeVariant::OneDark);
    assert!(matches!(effects.as_slice(), [Effect::SaveConfig]));
    assert!(!app.settings_editing);
}

#[test]
fn q_quits_unless_typing() {
    let mut app = app_with(vec![], Vault::load_empty());
    key(&mut app, KeyCode::Char('f'));
    key(&mut app, KeyCode::Char('q'));
    assert!(!app.should_quit);
    assert_eq!(app.filter_query, "q");
    key(&mut app, KeyCode::Enter);
    key(&mut app, KeyCode::Char('q'));
    assert!(app.should_quit);
}

#[test]
fn long_values_are_cut_at_forty_bytes() {
    assert_eq!(clip_to_bytes(&"x".repeat(50), 40), "x".repeat(40));
    assert_eq!(clip_to_bytes("short", 40), "short");
    assert_eq!(clip_to_bytes(&"é".repeat(25), 40), "é".repeat(20));
    let odd = format!("a{}", "é".repeat(20));
    assert_eq!(clip_to_bytes(&odd, 40), format!("a{}", "é".repeat(19)));
    let mut app = app_with(vec![], Vault::load_empty());
    app.env_var_rows = vec![EnvVarRow { key: "K".into(), vault_value: Some("v".repeat(45)) }];
    assert_eq!(app.env_var_table().rows[0].value, "v".repeat(40));
}

#[test]
fn vault_text_blank_json_or_broken() {
    let v = Vault::from_text("v.json".into(), None).unwrap();
    assert_eq!(v.len(), 0);
    assert_eq!(v.path, "v.json");
    let v = Vault::from_text("v.json".into(), Some("  \n".into())).unwrap();
    assert_eq!(v.len(), 0);
    let v = Vault::from_text("v.json".into(), Some("{\"b\": \"1\", \"A\": \"2\"}".into())).unwrap();
    assert_eq!(keys_of(&v), vec!["A", "b"]);
    assert_eq!(v.get("b"), Some("1"));
    assert!(!v.dirty);
    assert!(Vault::from_text("v.json".into(), Some("[1, 2]".into())).is_none());
}

#[test]
fn env_var_answers_in_every_form() {
    let r = decode_env_vars("g", false, "404 Not Found", "", None);
    assert_eq!(r.unwrap_err(), "HTTP 404 Not Found fetching env vars for g");
    let r = decode_env_vars("g", true, "200 OK", "[\"A\", \"B\"]", None).unwrap();
    assert_eq!(r.len(), 2);
    assert_eq!(r[1].name, "B");
    assert!(r[0].value.is_none());
    let objects = vec![EnvVar { name: "A".into(), value: Some("x".into()) }];
    let r = decode_env_vars("g", true, "200 OK", "[{\"name\": \"A\", \"value\": \"x\"}]", Some(objects)).unwrap();
    assert_eq!(r[0].value.as_deref(), Some("x"));
    let mut r = decode_env_vars("g", true, "200 OK", "{\"B\": null, \"A\": \"v\"}", None).unwrap();
    r.sort_by(|a, b| a.name.cmp(&b.name));
    assert_eq!(r.len(), 2);
    assert_eq!(r[0].value.as_deref(), Some("v"));
    assert!(r[1].value.is_none());
    let long = "x".repeat(300);
    let e = decode_env_vars("g", true, "200 OK", &long, None).unwrap_err();
    assert_eq!(e, format!("Unexpected env var response for g: {}", "x".repeat(200)));
}

#[test]
fn spinner_is_needed_only_while_loading() {
    let mut app = app_with(vec![project("a", "alpha", vec![])], Vault::load_empty());
    assert!(!app.list_shows_spinner());
    app.projects[0].load_state = LoadState::Loading;
    assert!(app.list_shows_spinner());
    app.filter_query = "zzz".into();
    assert!(!app.list_shows_spinner());
}
