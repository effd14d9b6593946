use posit_connect_secrets_manager::app::{
    App, EnvVarRow, InputEvent, KeyCode, KeyInput, LoadState, Page, ProjectEntry,
};
use posit_connect_secrets_manager::config::{Config, ExclusionMap};
use posit_connect_secrets_manager::model::EnvVar;
use posit_connect_secrets_manager::theme::ThemeVariant;
use posit_connect_secrets_manager::vault::Vault;

// ---------------------------------------------------------------------------
// Helpers
// ---------------------------------------------------------------------------

fn env_var(name: &str) -> EnvVar {
    EnvVar { name: name.to_string(), value: None }
}

fn project(guid: &str, name: &str, vars: Vec<EnvVar>) -> ProjectEntry {
    ProjectEntry {
        guid: guid.to_string(),
        name: name.to_string(),
        title: None,
        env_vars: vars,
        load_state: LoadState::Idle,
    }
}

fn project_with_title(guid: &str, name: &str, title: &str, vars: Vec<EnvVar>) -> ProjectEntry {
    ProjectEntry {
        guid: guid.to_string(),
        name: name.to_string(),
        title: Some(title.to_string()),
        env_vars: vars,
        load_state: LoadState::Idle,
    }
}

fn base_config() -> Config {
    Config {
        server_url: "http://connect.test".into(),
        api_key: "key".into(),
        vault_path: String::new(),
        last_refresh: None,
        included_projects: Vec::new(),
        excluded_vars: ExclusionMap::new(),
        theme: ThemeVariant::Inherit,
    }
}

fn make_app(config: Config, vault: Vault, projects: Vec<ProjectEntry>) -> App {
    let mut app = App::new(config, vault);
    app.projects = projects;
    app.sidebar_focused = false;
    app
}

fn press(app: &mut App, code: KeyCode) {
    app.handle_crossterm_event(InputEvent::Key(KeyInput::plain(code)));
}

// Two expanded projects: proj-a (2 vars), proj-b (1 var)
fn expanded_two_project_app() -> App {
    let config = base_config();
    let projects = vec![
        project("guid-a", "proj-a", vec![env_var("VAR1"), env_var("VAR2")]),
        project("guid-b", "proj-b", vec![env_var("OTHER")]),
    ];
    let mut app = make_app(config, Vault::load_empty(), projects);
    app.project_expanded.insert("guid-a".into());
    app
}

// ---------------------------------------------------------------------------
// compute_sync_payloads — whitelist enforcement
// ---------------------------------------------------------------------------

#[test]
fn empty_whitelist_produces_no_payloads() {
    let config = base_config();
    let projects = vec![project("guid-a", "proj-a", vec![env_var("FOO")])];
    let app = make_app(config, Vault::load_empty(), projects);
    assert!(app.compute_sync_payloads().is_empty());
}

#[test]
fn non_whitelisted_project_excluded_from_payloads() {
    let mut config = base_config();
    config.included_projects = vec!["guid-b".into()];
    let projects = vec![
        project("guid-a", "proj-a", vec![env_var("FOO")]),
        project("guid-b", "proj-b", vec![env_var("BAR")]),
    ];
    let mut vault = Vault::load_empty();
    vault.entries.insert("BAR".into(), "v".into());
    let app = make_app(config, vault, projects);
    let payloads = app.compute_sync_payloads();
    assert_eq!(payloads.len(), 1);
    assert_eq!(payloads[0].0, "guid-b");
    assert!(!payloads.iter().any(|(g, _)| g == "guid-a"));
}

#[test]
fn whitelisted_project_with_vars_included_in_payloads() {
    let mut config = base_config();
    config.included_projects = vec!["guid-a".into()];
    let projects = vec![project("guid-a", "proj-a", vec![env_var("FOO")])];
    let mut vault = Vault::load_empty();
    vault.entries.insert("FOO".into(), "bar".into());
    let app = make_app(config, vault, projects);
    let payloads = app.compute_sync_payloads();
    assert_eq!(payloads.len(), 1);
    assert_eq!(payloads[0].0, "guid-a");
    assert_eq!(payloads[0].1[0].name, "FOO");
}

#[test]
fn whitelisted_project_with_no_vars_excluded_from_payloads() {
    let mut config = base_config();
    config.included_projects = vec!["guid-a".into()];
    let projects = vec![project("guid-a", "proj-a", vec![])];
    let app = make_app(config, Vault::load_empty(), projects);
    assert!(app.compute_sync_payloads().is_empty());
}

#[test]
fn all_three_projects_mixed_whitelist() {
    let mut config = base_config();
    config.included_projects = vec!["guid-a".into(), "guid-c".into()];
    let projects = vec![
        project("guid-a", "proj-a", vec![env_var("X")]),
        project("guid-b", "proj-b", vec![env_var("Y")]),
        project("guid-c", "proj-c", vec![env_var("Z")]),
    ];
    let mut vault = Vault::load_empty();
    vault.entries.insert("X".into(), "xval".into());
    vault.entries.insert("Z".into(), "zval".into());
    let app = make_app(config, vault, projects);
    let payloads = app.compute_sync_payloads();
    assert_eq!(payloads.len(), 2);
    let guids: Vec<&str> = payloads.iter().map(|(g, _)| g.as_str()).collect();
    assert!(guids.contains(&"guid-a"));
    assert!(!guids.contains(&"guid-b"));
    assert!(guids.contains(&"guid-c"));
}

// ---------------------------------------------------------------------------
// compute_sync_payloads — var blacklist enforcement
// ---------------------------------------------------------------------------

#[test]
fn blacklisted_var_absent_from_payload() {
    let mut config = base_config();
    config.included_projects = vec!["guid-a".into()];
    config.excluded_vars.insert("guid-a".into(), vec!["SECRET".into()]);
    let projects = vec![project("guid-a", "proj-a", vec![env_var("PUBLIC"), env_var("SECRET")])];
    let mut vault = Vault::load_empty();
    vault.entries.insert("PUBLIC".into(), "pubval".into());
    let app = make_app(config, vault, projects);
    let payloads = app.compute_sync_payloads();
    assert_eq!(payloads.len(), 1);
    let vars = &payloads[0].1;
    assert_eq!(vars.len(), 1);
    assert_eq!(vars[0].name, "PUBLIC");
    assert!(!vars.iter().any(|v| v.name == "SECRET"));
}

#[test]
fn non_blacklisted_var_present_in_payload() {
    let mut config = base_config();
    config.included_projects = vec!["guid-a".into()];
    config.excluded_vars.insert("guid-a".into(), vec!["SKIP".into()]);
    let projects = vec![project("guid-a", "proj-a", vec![env_var("KEEP"), env_var("SKIP")])];
    let mut vault = Vault::load_empty();
    vault.entries.insert("KEEP".into(), "keepval".into());
    let app = make_app(config, vault, projects);
    let payloads = app.compute_sync_payloads();
    let vars = &payloads[0].1;
    assert!(vars.iter().any(|v| v.name == "KEEP"));
}

#[test]
fn all_vars_blacklisted_project_omitted_entirely() {
    let mut config = base_config();
    config.included_projects = vec!["guid-a".into()];
    config.excluded_vars.insert("guid-a".into(), vec!["FOO".into(), "BAR".into()]);
    let projects = vec![project("guid-a", "proj-a", vec![env_var("FOO"), env_var("BAR")])];
    let app = make_app(config, Vault::load_empty(), projects);
    assert!(
        app.compute_sync_payloads().is_empty(),
        "project with all vars blacklisted must not appear — an empty PATCH would delete all env vars"
    );
}

#[test]
fn blacklist_is_scoped_per_project_guid() {
    let mut config = base_config();
    config.included_projects = vec!["guid-a".into(), "guid-b".into()];
    config.excluded_vars.insert("guid-a".into(), vec!["SECRET".into()]);
    let projects = vec![
        project("guid-a", "proj-a", vec![env_var("PUBLIC"), env_var("SECRET")]),
        project("guid-b", "proj-b", vec![env_var("SECRET")]),
    ];
    let mut vault = Vault::load_empty();
    vault.entries.insert("PUBLIC".into(), "pubval".into());
    vault.entries.insert("SECRET".into(), "secval".into());
    let app = make_app(config, vault, projects);
    let payloads = app.compute_sync_payloads();
    assert_eq!(payloads.len(), 2);

    let a = payloads.iter().find(|(g, _)| g == "guid-a").unwrap();
    assert_eq!(a.1.len(), 1, "guid-a must only have PUBLIC");
    assert_eq!(a.1[0].name, "PUBLIC");

    let b = payloads.iter().find(|(g, _)| g == "guid-b").unwrap();
    assert_eq!(b.1.len(), 1, "guid-b's SECRET must not be filtered");
    assert_eq!(b.1[0].name, "SECRET");
}

#[test]
fn empty_excluded_vars_map_does_not_affect_sync() {
    let mut config = base_config();
    config.included_projects = vec!["guid-a".into()];
    config.excluded_vars.insert("guid-other".into(), vec!["X".into()]);
    let projects = vec![project("guid-a", "proj-a", vec![env_var("FOO")])];
    let mut vault = Vault::load_empty();
    vault.entries.insert("FOO".into(), "fooval".into());
    let app = make_app(config, vault, projects);
    let payloads = app.compute_sync_payloads();
    assert_eq!(payloads.len(), 1);
    assert_eq!(payloads[0].1.len(), 1);
}

// ---------------------------------------------------------------------------
// compute_sync_payloads — vault value overlay
// ---------------------------------------------------------------------------

#[test]
fn vault_value_overlaid_for_included_var() {
    let mut config = base_config();
    config.included_projects = vec!["guid-a".into()];
    let mut vault = Vault::load_empty();
    vault.entries.insert("DB_PASS".into(), "s3cr3t".into());
    let projects = vec![project("guid-a", "proj-a", vec![env_var("DB_PASS")])];
    let app = make_app(config, vault, projects);
    let payloads = app.compute_sync_payloads();
    assert_eq!(payloads[0].1[0].value.as_deref(), Some("s3cr3t"));
}

#[test]
fn vault_value_for_var_not_on_project_is_not_injected() {
    let mut config = base_config();
    config.included_projects = vec!["guid-a".into()];
    let mut vault = Vault::load_empty();
    vault.entries.insert("FOO".into(), "fooval".into());
    vault.entries.insert("EXTRA".into(), "value".into());
    let projects = vec![project("guid-a", "proj-a", vec![env_var("FOO")])];
    let app = make_app(config, vault, projects);
    let payloads = app.compute_sync_payloads();
    assert_eq!(payloads[0].1.len(), 1);
    assert_eq!(payloads[0].1[0].name, "FOO");
    assert!(!payloads[0].1.iter().any(|v| v.name == "EXTRA"));
}

#[test]
fn blacklisted_var_vault_value_not_sent() {
    let mut config = base_config();
    config.included_projects = vec!["guid-a".into()];
    config.excluded_vars.insert("guid-a".into(), vec!["DB_PASS".into()]);
    let mut vault = Vault::load_empty();
    vault.entries.insert("DB_PASS".into(), "s3cr3t".into());
    vault.entries.insert("OTHER".into(), "fine".into());
    let projects = vec![project("guid-a", "proj-a", vec![env_var("DB_PASS"), env_var("OTHER")])];
    let app = make_app(config, vault, projects);
    let payloads = app.compute_sync_payloads();
    let vars = &payloads[0].1;
    assert!(!vars.iter().any(|v| v.name == "DB_PASS"), "blacklisted var must not appear");
    assert_eq!(vars[0].value.as_deref(), Some("fine"), "OTHER's vault value must be applied");
}

#[test]
fn var_without_vault_entry_excluded_from_payload() {
    let mut config = base_config();
    config.included_projects = vec!["guid-a".into()];
    let projects = vec![project("guid-a", "proj-a", vec![env_var("FOO")])];
    let app = make_app(config, Vault::load_empty(), projects);
    assert!(app.compute_sync_payloads().is_empty());
}

// ---------------------------------------------------------------------------
// trigger_sync — modal preview
// ---------------------------------------------------------------------------

#[test]
fn trigger_sync_empty_whitelist_sets_status_not_modal() {
    let config = base_config();
    let projects = vec![project("guid-a", "proj-a", vec![env_var("X")])];
    let mut app = make_app(config, Vault::load_empty(), projects);
    app.trigger_sync();
    assert!(app.sync_confirm.is_none(), "no modal when whitelist is empty");
    assert!(app.status_message.is_some(), "status message should explain");
}

#[test]
fn trigger_sync_whitelisted_project_with_vars_shows_modal() {
    let mut config = base_config();
    config.included_projects = vec!["guid-a".into()];
    let projects = vec![project("guid-a", "proj-a", vec![env_var("X")])];
    let mut vault = Vault::load_empty();
    vault.entries.insert("X".into(), "xval".into());
    let mut app = make_app(config, vault, projects);
    app.trigger_sync();
    let names = app.sync_confirm.as_ref().expect("modal must be shown");
    assert_eq!(names.len(), 1);
    assert_eq!(names[0], "proj-a");
}

#[test]
fn trigger_sync_uses_title_over_name_in_modal() {
    let mut config = base_config();
    config.included_projects = vec!["guid-a".into()];
    let p = project_with_title("guid-a", "proj-a", "My Pretty App", vec![env_var("X")]);
    let mut vault = Vault::load_empty();
    vault.entries.insert("X".into(), "xval".into());
    let mut app = make_app(config, vault, vec![p]);
    app.trigger_sync();
    let names = app.sync_confirm.as_ref().unwrap();
    assert_eq!(names[0], "My Pretty App");
}

#[test]
fn trigger_sync_whitelisted_but_no_vars_no_modal() {
    let mut config = base_config();
    config.included_projects = vec!["guid-a".into()];
    let projects = vec![project("guid-a", "proj-a", vec![])];
    let mut app = make_app(config, Vault::load_empty(), projects);
    app.trigger_sync();
    assert!(app.sync_confirm.is_none());
    assert!(app.status_message.is_some());
}

#[test]
fn trigger_sync_whitelisted_all_vars_blacklisted_no_modal() {
    let mut config = base_config();
    config.included_projects = vec!["guid-a".into()];
    config.excluded_vars.insert("guid-a".into(), vec!["FOO".into()]);
    let projects = vec![project("guid-a", "proj-a", vec![env_var("FOO")])];
    let mut app = make_app(config, Vault::load_empty(), projects);
    app.trigger_sync();
    assert!(app.sync_confirm.is_none());
}

#[test]
fn trigger_sync_modal_lists_only_whitelisted_projects() {
    let mut config = base_config();
    config.included_projects = vec!["guid-a".into()];
    let projects = vec![
        project("guid-a", "proj-a", vec![env_var("X")]),
        project("guid-b", "proj-b", vec![env_var("Y")]),
    ];
    let mut vault = Vault::load_empty();
    vault.entries.insert("X".into(), "xval".into());
    let mut app = make_app(config, vault, projects);
    app.trigger_sync();
    let names = app.sync_confirm.as_ref().unwrap();
    assert_eq!(names.len(), 1);
    assert_eq!(names[0], "proj-a");
    assert!(!names.iter().any(|n| n == "proj-b"));
}

// ---------------------------------------------------------------------------
// Navigation — project_list_selected and project_var_selected
// ---------------------------------------------------------------------------

#[test]
fn nav_down_from_project_row_enters_first_var_when_expanded() {
    let mut app = expanded_two_project_app();
    assert_eq!(app.project_list_selected, 0);
    assert!(app.project_var_selected.is_none());
    press(&mut app, KeyCode::Down);
    assert_eq!(app.project_list_selected, 0, "must stay on same project");
    assert_eq!(app.project_var_selected, Some(0));
}

#[test]
fn nav_down_advances_through_vars() {
    let mut app = expanded_two_project_app();
    app.project_var_selected = Some(0);
    press(&mut app, KeyCode::Down);
    assert_eq!(app.project_list_selected, 0);
    assert_eq!(app.project_var_selected, Some(1));
}

#[test]
fn nav_down_from_last_var_moves_to_next_project() {
    let mut app = expanded_two_project_app();
    app.project_var_selected = Some(1);
    press(&mut app, KeyCode::Down);
    assert_eq!(app.project_list_selected, 1, "must move to proj-b");
    assert!(app.project_var_selected.is_none());
}

#[test]
fn nav_down_does_not_advance_past_last_project() {
    let mut app = expanded_two_project_app();
    app.project_list_selected = 1;
    press(&mut app, KeyCode::Down);
    assert_eq!(app.project_list_selected, 1);
}

#[test]
fn nav_up_from_first_var_returns_to_project_row() {
    let mut app = expanded_two_project_app();
    app.project_var_selected = Some(0);
    press(&mut app, KeyCode::Up);
    assert_eq!(app.project_list_selected, 0);
    assert!(app.project_var_selected.is_none());
}

#[test]
fn nav_up_within_vars() {
    let mut app = expanded_two_project_app();
    app.project_var_selected = Some(1);
    press(&mut app, KeyCode::Up);
    assert_eq!(app.project_var_selected, Some(0));
}

#[test]
fn nav_up_from_project_row_enters_prev_projects_last_var() {
    let mut app = expanded_two_project_app();
    app.project_list_selected = 1;
    app.project_var_selected = None;
    press(&mut app, KeyCode::Up);
    assert_eq!(app.project_list_selected, 0);
    assert_eq!(app.project_var_selected, Some(1));
}

#[test]
fn nav_up_does_not_go_before_first_project() {
    let app_config = base_config();
    let projects = vec![project("guid-a", "proj-a", vec![])];
    let mut app = make_app(app_config, Vault::load_empty(), projects);
    press(&mut app, KeyCode::Up);
    assert_eq!(app.project_list_selected, 0);
}

#[test]
fn nav_down_collapsed_project_skips_vars() {
    let app_config = base_config();
    let projects = vec![
        project("guid-a", "proj-a", vec![env_var("X")]),
        project("guid-b", "proj-b", vec![env_var("Y")]),
    ];
    let mut app = make_app(app_config, Vault::load_empty(), projects);
    press(&mut app, KeyCode::Down);
    assert_eq!(app.project_list_selected, 1);
    assert!(app.project_var_selected.is_none());
}

// ---------------------------------------------------------------------------
// x-key — whitelist and blacklist toggling
// ---------------------------------------------------------------------------

#[test]
fn x_on_project_row_adds_to_whitelist() {
    let config = base_config();
    let projects = vec![project("guid-a", "proj-a", vec![])];
    let mut app = make_app(config, Vault::load_empty(), projects);
    press(&mut app, KeyCode::Char('x'));
    assert!(
        app.config.included_projects.contains(&"guid-a".to_string()),
        "guid-a must be in whitelist after x"
    );
}

#[test]
fn x_on_whitelisted_project_removes_it() {
    let mut config = base_config();
    config.included_projects = vec!["guid-a".into()];
    let projects = vec![project("guid-a", "proj-a", vec![])];
    let mut app = make_app(config, Vault::load_empty(), projects);
    press(&mut app, KeyCode::Char('x'));
    assert!(app.config.included_projects.is_empty(), "guid-a must be removed from whitelist");
}

#[test]
fn x_toggle_is_idempotent_addremove() {
    let config = base_config();
    let projects = vec![project("guid-a", "proj-a", vec![])];
    let mut app = make_app(config, Vault::load_empty(), projects);
    press(&mut app, KeyCode::Char('x'));
    press(&mut app, KeyCode::Char('x'));
    assert!(app.config.included_projects.is_empty());
}

#[test]
fn x_only_affects_selected_project() {
    let config = base_config();
    let projects = vec![project("guid-a", "proj-a", vec![]), project("guid-b", "proj-b", vec![])];
    let mut app = make_app(config, Vault::load_empty(), projects);
    app.project_list_selected = 1;
    press(&mut app, KeyCode::Char('x'));
    assert!(!app.config.included_projects.contains(&"guid-a".to_string()));
    assert!(app.config.included_projects.contains(&"guid-b".to_string()));
}

#[test]
fn x_on_var_row_adds_to_blacklist() {
    let config = base_config();
    let projects = vec![project("guid-a", "proj-a", vec![env_var("FOO"), env_var("BAR")])];
    let mut app = make_app(config, Vault::load_empty(), projects);
    app.project_expanded.insert("guid-a".into());
    app.project_var_selected = Some(0);
    press(&mut app, KeyCode::Char('x'));
    let excl = app.config.excluded_vars.get("guid-a").expect("entry must exist");
    assert!(excl.contains(&"FOO".to_string()));
    assert!(!excl.contains(&"BAR".to_string()), "BAR must not be affected");
}

#[test]
fn x_on_blacklisted_var_removes_it() {
    let mut config = base_config();
    config.excluded_vars.insert("guid-a".into(), vec!["FOO".into()]);
    let projects = vec![project("guid-a", "proj-a", vec![env_var("FOO")])];
    let mut app = make_app(config, Vault::load_empty(), projects);
    app.project_expanded.insert("guid-a".into());
    app.project_var_selected = Some(0);
    press(&mut app, KeyCode::Char('x'));
    let excl = app.config.excluded_vars.get("guid-a");
    assert!(
        excl.map_or(true, |v| !v.contains(&"FOO".to_string())),
        "FOO must be removed from blacklist"
    );
}

#[test]
fn x_on_var_does_not_affect_other_projects_blacklist() {
    let config = base_config();
    let projects = vec![
        project("guid-a", "proj-a", vec![env_var("SECRET")]),
        project("guid-b", "proj-b", vec![env_var("SECRET")]),
    ];
    let mut app = make_app(config, Vault::load_empty(), projects);
    app.project_list_selected = 0;
    app.project_expanded.insert("guid-a".into());
    app.project_var_selected = Some(0);
    press(&mut app, KeyCode::Char('x'));
    assert!(app
        .config
        .excluded_vars
        .get("guid-b")
        .map_or(true, |v| !v.contains(&"SECRET".to_string())));
}

// ---------------------------------------------------------------------------
// Modal key handling
// ---------------------------------------------------------------------------

#[test]
fn modal_enter_clears_sync_confirm() {
    let config = base_config();
    let mut app = make_app(config, Vault::load_empty(), vec![]);
    app.sync_confirm = Some(vec!["proj-a".into()]);
    press(&mut app, KeyCode::Enter);
    assert!(app.sync_confirm.is_none());
}

#[test]
fn modal_y_clears_sync_confirm() {
    let config = base_config();
    let mut app = make_app(config, Vault::load_empty(), vec![]);
    app.sync_confirm = Some(vec!["proj-a".into()]);
    press(&mut app, KeyCode::Char('y'));
    assert!(app.sync_confirm.is_none());
}

#[test]
fn modal_esc_cancels_without_sync() {
    let config = base_config();
    let mut app = make_app(config, Vault::load_empty(), vec![]);
    app.sync_confirm = Some(vec!["proj-a".into()]);
    press(&mut app, KeyCode::Esc);
    assert!(app.sync_confirm.is_none());
}

#[test]
fn modal_n_cancels_without_sync() {
    let config = base_config();
    let mut app = make_app(config, Vault::load_empty(), vec![]);
    app.sync_confirm = Some(vec!["proj-a".into()]);
    press(&mut app, KeyCode::Char('n'));
    assert!(app.sync_confirm.is_none());
}

#[test]
fn modal_other_keys_do_not_dismiss_it() {
    let config = base_config();
    let mut app = make_app(config, Vault::load_empty(), vec![]);
    app.sync_confirm = Some(vec!["proj-a".into()]);
    press(&mut app, KeyCode::Char('q'));
    press(&mut app, KeyCode::Down);
    press(&mut app, KeyCode::Tab);
    assert!(app.sync_confirm.is_some(), "modal must remain open");
}

#[test]
fn ctrl_u_without_modal_open_does_not_call_execute_sync_directly() {
    let mut config = base_config();
    config.included_projects = vec!["guid-a".into()];
    let projects = vec![project("guid-a", "proj-a", vec![env_var("X")])];
    let mut vault = Vault::load_empty();
    vault.entries.insert("X".into(), "xval".into());
    let mut app = make_app(config, vault, projects);
    app.trigger_sync();
    assert!(app.sync_confirm.is_some());
    let ctrl_u = InputEvent::Key(KeyInput::control(KeyCode::Char('u')));
    app.handle_crossterm_event(ctrl_u);
    assert!(app.sync_confirm.is_some(), "modal must remain; Ctrl+U must not stack");
}

// ---------------------------------------------------------------------------
// Filter — filter_matches
// ---------------------------------------------------------------------------

#[test]
fn filter_matches_empty_query_always_true() {
    let app = make_app(base_config(), Vault::load_empty(), vec![]);
    assert!(app.filter_matches("anything"));
    assert!(app.filter_matches(""));
}

#[test]
fn filter_matches_literal_case_insensitive() {
    let mut app = make_app(base_config(), Vault::load_empty(), vec![]);
    app.filter_query = "jwt".into();
    assert!(app.filter_matches("JWT_SECRET"));
    assert!(app.filter_matches("jwt_secret"));
    assert!(app.filter_matches("MY_JWT_KEY"));
    assert!(!app.filter_matches("DB_PASS"));
}

#[test]
fn filter_matches_regex_pattern() {
    let mut app = make_app(base_config(), Vault::load_empty(), vec![]);
    app.filter_query = "^DB_".into();
    assert!(app.filter_matches("DB_HOST"));
    assert!(app.filter_matches("DB_PASS"));
    assert!(!app.filter_matches("MY_DB_PASS"));
}

#[test]
fn filter_matches_invalid_regex_falls_back_to_substring() {
    let mut app = make_app(base_config(), Vault::load_empty(), vec![]);
    app.filter_query = "[unclosed".into();
    assert!(app.filter_matches("[unclosed bracket"));
    assert!(!app.filter_matches("something else"));
}

// ---------------------------------------------------------------------------
// Filter — filtered_count
// ---------------------------------------------------------------------------

#[test]
fn filtered_count_projects_no_filter() {
    let projects = vec![project("a", "alpha", vec![]), project("b", "beta", vec![])];
    let app = make_app(base_config(), Vault::load_empty(), projects);
    assert_eq!(app.filtered_count(), 2);
}

#[test]
fn filtered_count_projects_with_filter() {
    let projects = vec![
        project("a", "alpha", vec![]),
        project("b", "beta", vec![]),
        project("c", "gamma", vec![]),
    ];
    let mut app = make_app(base_config(), Vault::load_empty(), projects);
    app.filter_query = "al".into();
    assert_eq!(app.filtered_count(), 1);
}

#[test]
fn filtered_count_env_vars_with_filter() {
    let config = base_config();
    let mut app = make_app(config, Vault::load_empty(), vec![]);
    app.env_var_rows = vec![
        EnvVarRow { key: "DB_HOST".into(), vault_value: None },
        EnvVarRow { key: "DB_PASS".into(), vault_value: None },
        EnvVarRow { key: "JWT_SECRET".into(), vault_value: None },
    ];
    app.page = Page::EnvVarList;
    app.filter_query = "DB".into();
    assert_eq!(app.filtered_count(), 2);
}

#[test]
fn filtered_count_vault_with_filter() {
    let mut vault = Vault::load_empty();
    vault.entries.insert("DB_HOST".into(), "localhost".into());
    vault.entries.insert("JWT_SECRET".into(), "s3cr3t".into());
    let mut app = make_app(base_config(), vault, vec![]);
    app.page = Page::Vault;
    app.filter_query = "JWT".into();
    assert_eq!(app.filtered_count(), 1);
}

// ---------------------------------------------------------------------------
// Filter — key handling
// ---------------------------------------------------------------------------

#[test]
fn f_key_opens_filter_input() {
    let mut app = make_app(base_config(), Vault::load_empty(), vec![]);
    assert!(!app.filter_editing);
    press(&mut app, KeyCode::Char('f'));
    assert!(app.filter_editing);
}

#[test]
fn typing_while_filter_editing_appends_to_query() {
    let mut app = make_app(base_config(), Vault::load_empty(), vec![]);
    press(&mut app, KeyCode::Char('f'));
    press(&mut app, KeyCode::Char('j'));
    press(&mut app, KeyCode::Char('w'));
    press(&mut app, KeyCode::Char('t'));
    assert_eq!(app.filter_query, "jwt");
    assert_eq!(app.filter_selected, 0);
}

#[test]
fn enter_closes_filter_input_keeps_query() {
    let mut app = make_app(base_config(), Vault::load_empty(), vec![]);
    press(&mut app, KeyCode::Char('f'));
    press(&mut app, KeyCode::Char('d'));
    press(&mut app, KeyCode::Char('b'));
    press(&mut app, KeyCode::Enter);
    assert!(!app.filter_editing);
    assert_eq!(app.filter_query, "db");
}

#[test]
fn esc_closes_filter_input_keeps_query() {
    let mut app = make_app(base_config(), Vault::load_empty(), vec![]);
    press(&mut app, KeyCode::Char('f'));
    press(&mut app, KeyCode::Char('x'));
    press(&mut app, KeyCode::Esc);
    assert!(!app.filter_editing);
    assert_eq!(app.filter_query, "x");
}

#[test]
fn backspace_removes_last_char_and_resets_selection() {
    let mut app = make_app(base_config(), Vault::load_empty(), vec![]);
    press(&mut app, KeyCode::Char('f'));
    press(&mut app, KeyCode::Char('a'));
    press(&mut app, KeyCode::Char('b'));
    app.filter_selected = 3;
    press(&mut app, KeyCode::Backspace);
    assert_eq!(app.filter_query, "a");
    assert_eq!(app.filter_selected, 0);
}

#[test]
fn shift_f_clears_filter() {
    let mut app = make_app(base_config(), Vault::load_empty(), vec![]);
    app.filter_query = "some_query".into();
    app.filter_selected = 2;
    press(&mut app, KeyCode::Char('F'));
    assert_eq!(app.filter_query, "");
    assert_eq!(app.filter_selected, 0);
    assert!(!app.filter_editing);
}

#[test]
fn jk_navigate_filtered_list_when_filter_active() {
    let projects = vec![
        project("a", "alpha", vec![]),
        project("b", "bravo", vec![]),
        project("c", "gamma", vec![]),
    ];
    let mut app = make_app(base_config(), Vault::load_empty(), projects);
    app.filter_query = "^[ab]".into();
    assert_eq!(app.filtered_count(), 2);
    assert_eq!(app.filter_selected, 0);

    press(&mut app, KeyCode::Char('j'));
    assert_eq!(app.filter_selected, 1);

    press(&mut app, KeyCode::Char('j'));
    assert_eq!(app.filter_selected, 1);

    press(&mut app, KeyCode::Char('k'));
    assert_eq!(app.filter_selected, 0);

    press(&mut app, KeyCode::Char('k'));
    assert_eq!(app.filter_selected, 0);
}

#[test]
fn page_switch_clears_filter() {
    let mut app = make_app(base_config(), Vault::load_empty(), vec![]);
    app.filter_query = "jwt".into();
    app.filter_selected = 1;
    app.filter_editing = false;
    app.sidebar_focused = true;
    press(&mut app, KeyCode::Char('j'));
    assert_eq!(app.filter_query, "");
    assert_eq!(app.filter_selected, 0);
}

#[test]
fn f_second_press_opens_editing_to_show_current_filter() {
    let mut app = make_app(base_config(), Vault::load_empty(), vec![]);
    press(&mut app, KeyCode::Char('f'));
    press(&mut app, KeyCode::Char('d'));
    press(&mut app, KeyCode::Char('b'));
    press(&mut app, KeyCode::Enter);
    assert!(!app.filter_editing);
    assert_eq!(app.filter_query, "db");
    press(&mut app, KeyCode::Char('f'));
    assert!(app.filter_editing);
    assert_eq!(app.filter_query, "db");
}

// ---------------------------------------------------------------------------
// env_var_detail popup
// ---------------------------------------------------------------------------

fn env_var_list_app() -> App {
    let mut config = base_config();
    config.included_projects = vec!["guid-a".into()];
    let projects = vec![
        project("guid-a", "proj-a", vec![env_var("FOO"), env_var("BAR")]),
        project("guid-b", "proj-b", vec![env_var("FOO")]),
    ];
    let mut vault = Vault::load_empty();
    vault.entries.insert("FOO".into(), "secret".into());
    let mut app = make_app(config, vault, projects);
    app.page = Page::EnvVarList;
    app.sidebar_focused = false;
    app.rebuild_env_var_rows();
    app
}

#[test]
fn space_opens_env_var_detail_popup() {
    let mut app = env_var_list_app();
    assert!(app.env_var_detail.is_none());
    press(&mut app, KeyCode::Char(' '));
    assert!(app.env_var_detail.is_some());
}

#[test]
fn enter_opens_env_var_detail_popup() {
    let mut app = env_var_list_app();
    press(&mut app, KeyCode::Enter);
    assert!(app.env_var_detail.is_some());
}

#[test]
fn popup_key_contains_selected_row_key() {
    let mut app = env_var_list_app();
    let expected_key = app.env_var_rows[app.env_var_selected].key.clone();
    press(&mut app, KeyCode::Char(' '));
    assert_eq!(app.env_var_detail.as_deref(), Some(expected_key.as_str()));
}

#[test]
fn any_key_closes_env_var_detail_popup() {
    let mut app = env_var_list_app();
    press(&mut app, KeyCode::Char(' '));
    assert!(app.env_var_detail.is_some());
    press(&mut app, KeyCode::Char('x'));
    assert!(app.env_var_detail.is_none());
}

#[test]
fn esc_closes_env_var_detail_popup_not_sidebar() {
    let mut app = env_var_list_app();
    press(&mut app, KeyCode::Char(' '));
    press(&mut app, KeyCode::Esc);
    assert!(app.env_var_detail.is_none());
    assert!(!app.sidebar_focused);
}

#[test]
fn nav_still_works_when_popup_closed() {
    let mut app = env_var_list_app();
    let initial = app.env_var_selected;
    press(&mut app, KeyCode::Char(' '));
    press(&mut app, KeyCode::Char('x'));
    press(&mut app, KeyCode::Char('j'));
    assert_eq!(app.env_var_selected, initial + 1);
}

#[test]
fn nav_blocked_while_popup_open() {
    let mut app = env_var_list_app();
    let initial = app.env_var_selected;
    press(&mut app, KeyCode::Char(' '));
    press(&mut app, KeyCode::Char('j'));
    assert_eq!(app.env_var_selected, initial);
    assert!(app.env_var_detail.is_none());
}
