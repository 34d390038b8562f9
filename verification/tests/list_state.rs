use tuihub::app::state::{
    catalog_categories, installed_ids_from, live_entries, App, LogEntry, LogLevel, Mode, Tab,
};
use tuihub::app::update::{
    category_left, category_right, cycle_tab_left, cycle_tab_right, refresh_filter,
};
use tuihub::registry::model::{AppEntry, InstallCommands};
use tuihub::system::os::Platform;

const SECOND: u64 = 1_000_000_000;

fn commands(linux: &str) -> InstallCommands {
    InstallCommands {
        linux: linux.to_string(),
        wsl: String::new(),
        mac: String::new(),
        windows: String::new(),
    }
}

fn entry(id: &str, name: &str, category: &str) -> AppEntry {
    AppEntry {
        id: id.to_string(),
        name: name.to_string(),
        description: format!("{} description", name),
        category: category.to_string(),
        repo: format!("https://example.org/{}", id),
        binary: format!("{}-bin", id),
        install: commands(&format!("apt install {}", id)),
        uninstall: commands(&format!("apt remove {}", id)),
    }
}

fn catalog() -> Vec<AppEntry> {
    vec![
        entry("lazygit", "LazyGit", "git"),
        entry("htop", "Htop", "monitor"),
        entry("btop", "Btop", "Monitor"),
        entry("nvim", "Neovim", "editor"),
    ]
}

fn app_with(installed: &[bool]) -> App {
    App::from_probes(catalog(), Platform::Linux, &installed.to_vec())
}

#[test]
fn fresh_state_shows_everything_with_cursor_on_first_row() {
    let app = app_with(&[false, false, false, false]);
    assert_eq!(app.filtered_indices, vec![0, 1, 2, 3]);
    assert_eq!(app.cursor, Some(0));
    assert_eq!(app.selected_tab, Tab::All);
    assert_eq!(app.mode, Mode::Normal);
    assert!(app.installed_ids.is_empty());
    assert!(app.selected_ids.is_empty());
    assert!(app.logs.is_empty());
    assert!(app.batch.is_none());
    assert!(app.confirm_action.is_none());
    assert_eq!(app.search_input, "");
    assert_eq!(
        app.status,
        "Ready. Navigate with arrows/jk. Space select, I install, L launch, / search."
    );
}

#[test]
fn fresh_state_over_empty_catalog_has_no_cursor() {
    let app = App::from_probes(Vec::new(), Platform::Linux, &Vec::new());
    assert!(app.filtered_indices.is_empty());
    assert_eq!(app.cursor, None);
    assert_eq!(app.categories, vec!["uncategorized"]);
    assert!(app.current_entry().is_none());
    assert!(app.selected_entries().is_empty());
}

#[test]
fn categories_are_sorted_and_distinct_by_exact_text() {
    let app = app_with(&[false, false, false, false]);
    assert_eq!(app.categories, vec!["Monitor", "editor", "git", "monitor"]);
    let repeated = vec![entry("a", "A", "x"), entry("b", "B", "x"), entry("c", "C", "")];
    assert_eq!(catalog_categories(&repeated), vec!["", "x"]);
    assert_eq!(catalog_categories(&Vec::new()), vec!["uncategorized"]);
}

#[test]
fn new_probes_the_search_path() {
    let mut entries = catalog();
    entries[1].binary = "sh".to_string();
    entries[2].binary = "surely-no-such-binary-on-any-path-7f3a9".to_string();
    let app = App::new(entries, Platform::Linux);
    assert!(app.installed_ids.contains(&"htop".to_string()));
    assert!(!app.installed_ids.contains(&"btop".to_string()));
    assert_eq!(app.cursor, Some(0));
    assert_eq!(app.filtered_indices, vec![0, 1, 2, 3]);
}

#[test]
fn installed_set_holds_each_found_id_once() {
    let mut entries = catalog();
    entries.push(entry("htop", "Htop again", "monitor"));
    let ids = installed_ids_from(&entries, &vec![false, true, false, true, true]);
    assert_eq!(ids, vec!["htop", "nvim"]);
    assert!(installed_ids_from(&entries, &vec![]).is_empty());
    assert_eq!(installed_ids_from(&entries, &vec![true]), vec!["lazygit"]);
}

#[test]
fn refresh_with_same_probes_is_idempotent() {
    let mut app = app_with(&[true, false, true, false]);
    cycle_tab_right(&mut app);
    app.move_down();
    let probes = vec![false, true, true, false];
    app.set_installed(&probes);
    let ids = app.installed_ids.clone();
    let list = app.filtered_indices.clone();
    let cursor = app.cursor;
    app.set_installed(&probes);
    assert_eq!(app.installed_ids, ids);
    assert_eq!(app.filtered_indices, list);
    assert_eq!(app.cursor, cursor);
    assert_eq!(ids, vec!["htop", "btop"]);
}

#[test]
fn installed_tab_shows_installed_entries_only() {
    let mut app = app_with(&[false, true, false, true]);
    cycle_tab_right(&mut app);
    assert_eq!(app.selected_tab, Tab::Installed);
    assert_eq!(app.filtered_indices, vec![1, 3]);
    assert_eq!(app.cursor, Some(0));
    assert!(app.is_installed(&app.entries[1]));
    assert!(!app.is_installed(&app.entries[0]));
}

#[test]
fn category_tab_matches_category_without_case() {
    let mut app = app_with(&[false, false, false, false]);
    cycle_tab_left(&mut app);
    assert_eq!(app.selected_tab, Tab::Categories);
    assert_eq!(app.selected_category, 0);
    assert_eq!(app.categories[0], "Monitor");
    assert_eq!(app.filtered_indices, vec![1, 2]);
    category_right(&mut app);
    assert_eq!(app.categories[app.selected_category], "editor");
    assert_eq!(app.filtered_indices, vec![3]);
}

#[test]
fn tabs_cycle_in_both_directions() {
    let mut app = app_with(&[false, false, false, false]);
    cycle_tab_right(&mut app);
    assert_eq!(app.selected_tab, Tab::Installed);
    cycle_tab_right(&mut app);
    assert_eq!(app.selected_tab, Tab::Categories);
    cycle_tab_right(&mut app);
    assert_eq!(app.selected_tab, Tab::All);
    cycle_tab_left(&mut app);
    assert_eq!(app.selected_tab, Tab::Categories);
    cycle_tab_left(&mut app);
    assert_eq!(app.selected_tab, Tab::Installed);
    cycle_tab_left(&mut app);
    assert_eq!(app.selected_tab, Tab::All);
}

#[test]
fn categories_cycle_with_wrap_around_on_their_tab_only() {
    let mut app = app_with(&[false, false, false, false]);
    category_right(&mut app);
    assert_eq!(app.selected_category, 0);
    category_left(&mut app);
    assert_eq!(app.selected_category, 0);
    cycle_tab_left(&mut app);
    category_left(&mut app);
    assert_eq!(app.selected_category, 3);
    category_right(&mut app);
    assert_eq!(app.selected_category, 0);
    category_right(&mut app);
    category_right(&mut app);
    assert_eq!(app.selected_category, 2);
    assert_eq!(app.filtered_indices, vec![0]);
}

#[test]
fn cursor_is_cleared_when_the_list_becomes_empty() {
    let mut app = app_with(&[false, false, false, false]);
    cycle_tab_right(&mut app);
    assert!(app.filtered_indices.is_empty());
    assert_eq!(app.cursor, None);
    app.move_down();
    assert_eq!(app.cursor, None);
    app.move_up();
    assert_eq!(app.cursor, None);
    assert!(app.current_entry().is_none());
}

#[test]
fn cursor_is_kept_in_bounds_and_reset_otherwise() {
    let mut app = app_with(&[false, true, false, true]);
    app.move_down();
    assert_eq!(app.cursor, Some(1));
    cycle_tab_right(&mut app);
    assert_eq!(app.filtered_indices, vec![1, 3]);
    assert_eq!(app.cursor, Some(1));
    cycle_tab_left(&mut app);
    app.move_up();
    app.move_up();
    assert_eq!(app.cursor, Some(3));
    cycle_tab_right(&mut app);
    assert_eq!(app.cursor, Some(0));
}

#[test]
fn cursor_repair_restores_a_cursor_that_was_cleared() {
    let mut app = app_with(&[false, false, false, false]);
    app.cursor = None;
    refresh_filter(&mut app);
    assert_eq!(app.cursor, Some(0));
    app.cursor = Some(17);
    app.refresh_filter();
    assert_eq!(app.cursor, Some(0));
}

#[test]
fn movement_wraps_around() {
    let mut app = app_with(&[false, false, false, false]);
    app.move_up();
    assert_eq!(app.cursor, Some(3));
    app.move_down();
    assert_eq!(app.cursor, Some(0));
    app.move_down();
    app.move_down();
    app.move_down();
    assert_eq!(app.cursor, Some(3));
    app.move_up();
    assert_eq!(app.cursor, Some(2));
}

#[test]
fn search_matches_each_of_the_four_fields() {
    let mut app = app_with(&[false, false, false, false]);
    app.set_query("LAZY".to_string());
    assert_eq!(app.filtered_indices, vec![0]);
    app.set_query("btop desc".to_string());
    assert_eq!(app.filtered_indices, vec![2]);
    app.set_query("monitor".to_string());
    assert_eq!(app.filtered_indices, vec![1, 2]);
    app.set_query("nvim".to_string());
    assert_eq!(app.filtered_indices, vec![3]);
    app.set_query("example.org".to_string());
    assert!(app.filtered_indices.is_empty());
}

#[test]
fn blank_query_matches_everything() {
    let mut app = app_with(&[false, false, false, false]);
    app.set_query("   ".to_string());
    assert_eq!(app.filtered_indices, vec![0, 1, 2, 3]);
    app.set_query(" top".to_string());
    assert!(app.filtered_indices.is_empty());
    assert!(app.matches_search(&entry("x", "a top", "c")));
}

#[test]
fn query_matches_lower_cased_name_as_substring() {
    let mut app =
        App::from_probes(vec![entry("ctl", "X Control", "tools")], Platform::Linux, &vec![false]);
    app.set_query("xc".to_string());
    assert!(app.filtered_indices.is_empty());
    app.set_query("x c".to_string());
    assert_eq!(app.filtered_indices, vec![0]);
    app.set_query("X CON".to_string());
    assert_eq!(app.filtered_indices, vec![0]);
    app.set_query("zz".to_string());
    assert!(app.filtered_indices.is_empty());
    assert_eq!(app.cursor, None);
}

#[test]
fn tab_and_search_combine() {
    let mut app = app_with(&[true, true, false, false]);
    cycle_tab_right(&mut app);
    app.set_query("top".to_string());
    assert_eq!(app.filtered_indices, vec![1]);
    assert!(app.matches_tab(&app.entries[0]));
    assert!(!app.matches_search(&app.entries[0]));
    assert!(!app.matches_tab(&app.entries[2]));
    assert!(app.matches_search(&app.entries[2]));
}

#[test]
fn toggle_flips_the_focused_entry() {
    let mut app = app_with(&[false, false, false, false]);
    app.toggle_selected_current();
    assert_eq!(app.selected_ids, vec!["lazygit"]);
    app.move_down();
    app.toggle_selected_current();
    assert_eq!(app.selected_ids, vec!["lazygit", "htop"]);
    app.move_up();
    app.toggle_selected_current();
    assert_eq!(app.selected_ids, vec!["htop"]);
}

#[test]
fn toggle_without_focus_changes_nothing() {
    let mut app = App::from_probes(Vec::new(), Platform::Linux, &Vec::new());
    app.toggle_selected_current();
    assert!(app.selected_ids.is_empty());
}

#[test]
fn targets_are_the_selection_in_catalog_order() {
    let mut app = app_with(&[false, false, false, false]);
    app.move_up();
    app.toggle_selected_current();
    app.move_down();
    app.toggle_selected_current();
    app.move_down();
    let ids: Vec<String> = app.selected_entries().into_iter().map(|e| e.id).collect();
    assert_eq!(ids, vec!["lazygit", "nvim"]);
}

#[test]
fn targets_fall_back_to_the_focused_entry() {
    let mut app = app_with(&[false, false, false, false]);
    app.move_down();
    let ids: Vec<String> = app.selected_entries().into_iter().map(|e| e.id).collect();
    assert_eq!(ids, vec!["htop"]);
    assert_eq!(app.current_entry().map(|e| e.id.as_str()), Some("htop"));
}

#[test]
fn targets_are_empty_without_selection_and_focus() {
    let mut app = app_with(&[false, false, false, false]);
    app.set_query("zz".to_string());
    assert!(app.selected_entries().is_empty());
}

#[test]
fn selection_survives_filtering() {
    let mut app = app_with(&[false, false, false, false]);
    app.toggle_selected_current();
    app.set_query("zz".to_string());
    let ids: Vec<String> = app.selected_entries().into_iter().map(|e| e.id).collect();
    assert_eq!(ids, vec!["lazygit"]);
}

#[test]
fn clear_selection_leaves_cursor_and_filter() {
    let mut app = app_with(&[false, false, false, false]);
    app.move_down();
    app.toggle_selected_current();
    app.clear_selection();
    assert!(app.selected_ids.is_empty());
    assert_eq!(app.cursor, Some(1));
    assert_eq!(app.filtered_indices, vec![0, 1, 2, 3]);
}

#[test]
fn set_status_replaces_the_status_line() {
    let mut app = app_with(&[false, false, false, false]);
    app.set_status("hello".to_string());
    assert_eq!(app.status, "hello");
}

#[test]
fn log_keeps_at_most_three_entries() {
    let mut app = app_with(&[false, false, false, false]);
    for i in 0..5u64 {
        app.log_at(format!("m{}", i), LogLevel::Info, i);
    }
    let messages: Vec<&str> = app.logs.iter().map(|l| l.message.as_str()).collect();
    assert_eq!(messages, vec!["m2", "m3", "m4"]);
}

#[test]
fn log_drops_entries_older_than_three_seconds() {
    let mut app = app_with(&[false, false, false, false]);
    app.log_at("old".to_string(), LogLevel::Error, 0);
    app.log_at("mid".to_string(), LogLevel::Success, 2 * SECOND);
    app.log_at("new".to_string(), LogLevel::Info, 3 * SECOND);
    let messages: Vec<&str> = app.logs.iter().map(|l| l.message.as_str()).collect();
    assert_eq!(messages, vec!["mid", "new"]);
    assert_eq!(app.logs[0].level, LogLevel::Success);
    assert_eq!(app.logs[1].created_at, 3 * SECOND);
}

#[test]
fn log_entry_lives_just_under_three_seconds() {
    let entries = vec![
        LogEntry { message: "a".to_string(), level: LogLevel::Info, created_at: 1 },
        LogEntry { message: "b".to_string(), level: LogLevel::Info, created_at: 2 },
    ];
    assert_eq!(live_entries(&entries, 3 * SECOND).len(), 2);
    assert_eq!(live_entries(&entries, 3 * SECOND + 1).len(), 1);
    assert_eq!(live_entries(&entries, 3 * SECOND + 1)[0].message, "b");
    assert_eq!(live_entries(&entries, 3 * SECOND + 2).len(), 0);
    assert_eq!(live_entries(&entries, 0).len(), 2);
}

#[test]
fn prune_removes_expired_entries_only() {
    let mut app = app_with(&[false, false, false, false]);
    app.log_at("a".to_string(), LogLevel::Info, 0);
    app.log_at("b".to_string(), LogLevel::Info, SECOND);
    app.prune_logs_at(3 * SECOND);
    let messages: Vec<&str> = app.logs.iter().map(|l| l.message.as_str()).collect();
    assert_eq!(messages, vec!["b"]);
    app.prune_logs_at(10 * SECOND);
    assert!(app.logs.is_empty());
}

#[test]
fn log_by_the_clock_stays_within_capacity() {
    let mut app = app_with(&[false, false, false, false]);
    for i in 0..6 {
        app.log(format!("m{}", i), LogLevel::Info);
        assert!(app.logs.len() <= 3);
    }
    assert_eq!(app.logs.last().map(|l| l.message.as_str()), Some("m5"));
    app.prune_logs();
    assert_eq!(app.logs.len(), 3);
}

#[test]
fn confirm_question_names_the_pending_targets() {
    let app = app_with(&[false, false, false, false]);
    assert_eq!(app.confirm_question(), "Confirm action?");
}
