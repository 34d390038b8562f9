use tuihub::app::state::{App, Batch, BatchKind, LogLevel, Mode, Tab};
use tuihub::app::keys::{intent_for, Intent, Key, KeyPress};
use tuihub::app::machine::{Action, Host};
use tuihub::registry::model::{AppEntry, InstallCommands};
use tuihub::system::exec::ProcessOutcome;
use tuihub::system::os::Platform;
use tuihub::system::tmux::LaunchKind;

fn commands(linux: &str) -> InstallCommands {
    InstallCommands {
        linux: linux.to_string(),
        wsl: String::new(),
        mac: String::new(),
        windows: String::new(),
    }
}

fn entry(id: &str, name: &str, binary: &str, install: &str, uninstall: &str) -> AppEntry {
    AppEntry {
        id: id.to_string(),
        name: name.to_string(),
        description: String::new(),
        category: "tools".to_string(),
        repo: String::new(),
        binary: binary.to_string(),
        install: commands(install),
        uninstall: commands(uninstall),
    }
}

fn xctl() -> AppEntry {
    entry("x", "X Control", "xctl", "apt install xctl", "apt remove xctl")
}

fn trio() -> Vec<AppEntry> {
    vec![
        entry("a", "Alpha", "alpha", "apt install alpha", "apt remove alpha"),
        entry("b", "Beta", "beta", "", ""),
        entry("c", "Gamma", "gamma", "apt install gamma", "apt remove gamma"),
    ]
}

fn key(c: char) -> KeyPress {
    KeyPress { key: Key::Char(c), ctrl: false }
}

fn special(key: Key) -> KeyPress {
    KeyPress { key, ctrl: false }
}

fn host() -> Host {
    Host { now: 0, tmux_present: true, in_tmux: false, timestamp: 1700000000 }
}

fn select_all(app: &mut App) {
    for _ in 0..app.filtered_indices.len() {
        app.toggle_selected_current();
        app.move_down();
    }
}

fn is_continue(action: &Action) -> bool {
    matches!(action, Action::Continue)
}

#[test]
fn keys_map_to_intents_in_normal_mode() {
    let cases = [
        (key('q'), Intent::Quit),
        (KeyPress { key: Key::Char('c'), ctrl: true }, Intent::Quit),
        (KeyPress { key: Key::Char('q'), ctrl: true }, Intent::Quit),
        (special(Key::Down), Intent::MoveDown),
        (key('j'), Intent::MoveDown),
        (special(Key::Up), Intent::MoveUp),
        (key('k'), Intent::MoveUp),
        (special(Key::Tab), Intent::NextTab),
        (special(Key::BackTab), Intent::PreviousTab),
        (special(Key::Left), Intent::CategoryLeft),
        (special(Key::Right), Intent::CategoryRight),
        (key(' '), Intent::ToggleSelect),
        (key('/'), Intent::StartSearch),
        (special(Key::Esc), Intent::ClearSearch),
        (key('c'), Intent::ClearSelection),
        (key('C'), Intent::ClearSelection),
        (special(Key::Enter), Intent::QuickLaunch),
        (key('\r'), Intent::QuickLaunch),
        (key('i'), Intent::Install),
        (key('I'), Intent::Install),
        (key('u'), Intent::RequestUninstall),
        (key('U'), Intent::RequestUninstall),
        (key('l'), Intent::Launch),
        (key('L'), Intent::Launch),
        (key('z'), Intent::Ignore),
        (special(Key::Backspace), Intent::Ignore),
        (special(Key::Other), Intent::Ignore),
    ];
    for (press, intent) in cases {
        assert_eq!(intent_for(Mode::Normal, press), intent);
    }
}

#[test]
fn keys_map_to_intents_while_editing_the_query() {
    assert_eq!(intent_for(Mode::SearchEditing, special(Key::Esc)), Intent::SearchCancel);
    assert_eq!(intent_for(Mode::SearchEditing, special(Key::Enter)), Intent::SearchCommit);
    assert_eq!(intent_for(Mode::SearchEditing, special(Key::Backspace)), Intent::SearchBackspace);
    assert_eq!(intent_for(Mode::SearchEditing, key('q')), Intent::SearchInput('q'));
    assert_eq!(intent_for(Mode::SearchEditing, key(' ')), Intent::SearchInput(' '));
    assert_eq!(
        intent_for(Mode::SearchEditing, KeyPress { key: Key::Char('c'), ctrl: true }),
        Intent::Ignore
    );
    assert_eq!(intent_for(Mode::SearchEditing, special(Key::Down)), Intent::Ignore);
    assert_eq!(intent_for(Mode::SearchEditing, special(Key::Tab)), Intent::Ignore);
}

#[test]
fn keys_map_to_intents_while_confirming() {
    assert_eq!(intent_for(Mode::ConfirmPending, special(Key::Enter)), Intent::ConfirmCommit);
    assert_eq!(intent_for(Mode::ConfirmPending, special(Key::Left)), Intent::ChooseNo);
    assert_eq!(intent_for(Mode::ConfirmPending, key('h')), Intent::ChooseNo);
    assert_eq!(intent_for(Mode::ConfirmPending, special(Key::Right)), Intent::ChooseYes);
    assert_eq!(intent_for(Mode::ConfirmPending, key('l')), Intent::ChooseYes);
    assert_eq!(intent_for(Mode::ConfirmPending, special(Key::Esc)), Intent::ConfirmCancel);
    assert_eq!(intent_for(Mode::ConfirmPending, key('q')), Intent::ConfirmCancel);
    assert_eq!(intent_for(Mode::ConfirmPending, key('u')), Intent::Ignore);
    assert_eq!(intent_for(Mode::ConfirmPending, special(Key::Down)), Intent::Ignore);
}

#[test]
fn unrecognised_key_changes_nothing() {
    let mut app = App::from_probes(trio(), Platform::Linux, &vec![false, false, false]);
    app.move_down();
    let action = app.press(key('z'), host());
    assert!(is_continue(&action));
    assert_eq!(app.cursor, Some(1));
    assert_eq!(app.mode, Mode::Normal);
    assert_eq!(
        app.status,
        "Ready. Navigate with arrows/jk. Space select, I install, L launch, / search."
    );
}

#[test]
fn quit_key_asks_to_leave() {
    let mut app = App::from_probes(trio(), Platform::Linux, &vec![false, false, false]);
    assert!(matches!(app.press(key('q'), host()), Action::Quit));
    assert!(matches!(app.press(KeyPress { key: Key::Char('c'), ctrl: true }, host()), Action::Quit));
}

#[test]
fn navigation_keys_move_cursor_and_tabs() {
    let mut app = App::from_probes(trio(), Platform::Linux, &vec![true, false, false]);
    app.press(key('j'), host());
    assert_eq!(app.cursor, Some(1));
    app.press(special(Key::Up), host());
    assert_eq!(app.cursor, Some(0));
    app.press(special(Key::Tab), host());
    assert_eq!(app.selected_tab, Tab::Installed);
    assert_eq!(app.filtered_indices, vec![0]);
    app.press(special(Key::BackTab), host());
    assert_eq!(app.selected_tab, Tab::All);
    app.press(key(' '), host());
    assert_eq!(app.selected_ids, vec!["a"]);
    app.press(key('c'), host());
    assert!(app.selected_ids.is_empty());
}

#[test]
fn search_editing_filters_after_every_keystroke() {
    let mut app = App::from_probes(trio(), Platform::Linux, &vec![false, false, false]);
    app.press(key('/'), host());
    assert_eq!(app.mode, Mode::SearchEditing);
    app.press(key('a'), host());
    assert_eq!(app.search_input, "a");
    assert_eq!(app.filtered_indices, vec![0, 1, 2]);
    app.press(key('m'), host());
    assert_eq!(app.filtered_indices, vec![2]);
    app.press(key('x'), host());
    assert!(app.filtered_indices.is_empty());
    assert_eq!(app.cursor, None);
    app.press(special(Key::Backspace), host());
    assert_eq!(app.search_input, "am");
    assert_eq!(app.filtered_indices, vec![2]);
    assert_eq!(app.cursor, Some(0));
    app.press(special(Key::Enter), host());
    assert_eq!(app.mode, Mode::Normal);
    assert_eq!(app.status, "Search applied: 'am'");
    assert_eq!(app.filtered_indices, vec![2]);
}

#[test]
fn search_editing_ignores_control_characters_and_other_keys() {
    let mut app = App::from_probes(trio(), Platform::Linux, &vec![false, false, false]);
    app.press(key('/'), host());
    app.press(KeyPress { key: Key::Char('v'), ctrl: true }, host());
    app.press(special(Key::Down), host());
    assert_eq!(app.search_input, "");
    assert_eq!(app.cursor, Some(0));
    assert_eq!(app.mode, Mode::SearchEditing);
    app.press(key('q'), host());
    assert_eq!(app.search_input, "q");
    app.press(special(Key::Backspace), host());
    app.press(special(Key::Backspace), host());
    assert_eq!(app.search_input, "");
    assert_eq!(app.filtered_indices, vec![0, 1, 2]);
}

#[test]
fn search_escape_restores_the_committed_query() {
    let mut app = App::from_probes(trio(), Platform::Linux, &vec![false, false, false]);
    app.press(key('/'), host());
    app.press(key('b'), host());
    app.press(key('e'), host());
    app.press(special(Key::Enter), host());
    assert_eq!(app.filtered_indices, vec![1]);
    app.press(key('/'), host());
    app.press(key('z'), host());
    assert!(app.filtered_indices.is_empty());
    app.press(special(Key::Esc), host());
    assert_eq!(app.mode, Mode::Normal);
    assert_eq!(app.search_input, "be");
    assert_eq!(app.filtered_indices, vec![1]);
    assert_eq!(app.cursor, Some(0));
}

#[test]
fn escape_in_normal_mode_clears_the_query() {
    let mut app = App::from_probes(trio(), Platform::Linux, &vec![false, false, false]);
    app.press(special(Key::Esc), host());
    assert_eq!(
        app.status,
        "Ready. Navigate with arrows/jk. Space select, I install, L launch, / search."
    );
    app.set_query("gam".to_string());
    app.press(special(Key::Esc), host());
    assert_eq!(app.search_input, "");
    assert_eq!(app.status, "Search cleared.");
    assert_eq!(app.filtered_indices, vec![0, 1, 2]);
}

#[test]
fn install_of_focused_entry_runs_its_command_and_shows_it_installed() {
    let mut app = App::from_probes(vec![xctl()], Platform::Linux, &vec![false]);
    assert_eq!(app.filtered_indices, vec![0]);
    app.press(special(Key::Tab), host());
    assert!(app.filtered_indices.is_empty());
    app.press(special(Key::BackTab), host());
    let action = app.press(key('i'), host());
    match action {
        Action::RunShell(job) => {
            assert_eq!(job.shell, "sh");
            assert_eq!(job.flag, "-lc");
            assert_eq!(job.command, "apt install xctl");
            assert_eq!(
                job.advisory,
                "About to run install command for X Control.\n\nCommand:\napt install xctl\n\nIf sudo asks for password, type normally."
            );
        }
        other => panic!("unexpected action {:?}", other),
    }
    assert_eq!(app.status, "Installing X Control using: apt install xctl");
    assert_eq!(app.batch.as_ref().map(|b| b.kind), Some(BatchKind::Install));
    let action = app.process_finished(&ProcessOutcome::Succeeded, host());
    assert!(matches!(action, Action::Refresh));
    assert!(app.batch.is_none());
    assert_eq!(app.status, "Installed X Control successfully.");
    assert_eq!(app.logs.len(), 1);
    assert_eq!(app.logs[0].message, "Installed X Control");
    assert_eq!(app.logs[0].level, LogLevel::Success);
    app.set_installed(&vec![true]);
    app.press(special(Key::Tab), host());
    assert_eq!(app.selected_tab, Tab::Installed);
    assert_eq!(app.filtered_indices, vec![0]);
}

#[test]
fn install_on_windows_runs_under_cmd() {
    let mut target = xctl();
    target.install.windows = "winget install xctl".to_string();
    let mut app = App::from_probes(vec![target], Platform::Windows, &vec![false]);
    match app.press(key('I'), host()) {
        Action::RunShell(job) => {
            assert_eq!(job.shell, "cmd");
            assert_eq!(job.flag, "/C");
            assert_eq!(job.command, "winget install xctl");
        }
        other => panic!("unexpected action {:?}", other),
    }
}

#[test]
fn install_without_target_reports_it() {
    let mut app = App::from_probes(Vec::new(), Platform::Linux, &Vec::new());
    assert!(is_continue(&app.press(key('i'), host())));
    assert_eq!(app.status, "No app selected to install.");
    assert!(app.batch.is_none());
}

#[test]
fn install_on_unknown_platform_is_disabled() {
    let mut app = App::from_probes(vec![xctl()], Platform::Unknown, &vec![false]);
    assert!(is_continue(&app.press(key('i'), host())));
    assert_eq!(app.status, "Unknown platform. Cannot install.");
    assert!(is_continue(&app.press(key('u'), host())));
    assert_eq!(app.status, "Unknown platform. Cannot uninstall.");
    assert!(is_continue(&app.press(key('l'), host())));
    assert_eq!(app.status, "Unknown platform. Cannot launch.");
    assert!(is_continue(&app.press(special(Key::Enter), host())));
    assert_eq!(app.status, "Unknown platform. Cannot launch.");
    assert!(app.batch.is_none());
    assert_eq!(app.mode, Mode::Normal);
}

#[test]
fn missing_multiplexer_calls_a_launch_off_on_every_platform() {
    let platforms = [
        (Platform::Linux, "Install tmux: sudo apt install tmux"),
        (Platform::Wsl, "Install tmux: sudo apt install tmux"),
        (Platform::Mac, "Install tmux: brew install tmux"),
        (Platform::Windows, "Install tmux in WSL, then run TUIHub inside WSL terminal."),
        (Platform::Unknown, "Install tmux for your platform."),
    ];
    for (platform, hint) in platforms {
        for press in [key('l'), key('L'), special(Key::Enter)] {
            let mut app = App::from_probes(trio(), platform, &vec![true, true, true]);
            app.toggle_selected_current();
            app.move_down();
            let action = app.press(press, Host { tmux_present: false, ..host() });
            assert!(is_continue(&action));
            assert_eq!(app.status, format!("tmux is required for launch. {}", hint));
            assert!(app.batch.is_none());
            assert!(app.logs.is_empty());
            assert_eq!(app.mode, Mode::Normal);
            assert_eq!(app.installed_ids, vec!["a", "b", "c"]);
            assert_eq!(app.selected_ids, vec!["a"]);
            assert_eq!(app.cursor, Some(1));
            assert_eq!(app.launches, 0);
        }
    }
}

#[test]
fn install_skips_installed_and_commandless_targets() {
    let mut app = App::from_probes(trio(), Platform::Linux, &vec![true, false, false]);
    select_all(&mut app);
    let action = app.press(key('i'), Host { now: 5, ..host() });
    match action {
        Action::RunShell(job) => assert_eq!(job.command, "apt install gamma"),
        other => panic!("unexpected action {:?}", other),
    }
    assert_eq!(app.status, "Installing Gamma using: apt install gamma");
    assert_eq!(app.logs.len(), 1);
    assert_eq!(app.logs[0].message, "Alpha already installed");
    assert_eq!(app.logs[0].level, LogLevel::Info);
    assert_eq!(app.logs[0].created_at, 5);
    assert_eq!(app.batch.as_ref().map(|b| b.next), Some(2));
}

#[test]
fn install_of_only_skipped_targets_ends_with_a_refresh() {
    let mut app = App::from_probes(trio(), Platform::Linux, &vec![true, false, false]);
    app.toggle_selected_current();
    assert!(matches!(app.press(key('i'), host()), Action::Refresh));
    assert_eq!(app.status, "Alpha already installed");
    assert!(app.batch.is_none());
    app.clear_selection();
    app.move_down();
    assert!(matches!(app.press(key('i'), host()), Action::Refresh));
    assert_eq!(app.status, "No install command defined for Beta on Linux.");
    assert_eq!(app.logs.len(), 1);
}

#[test]
fn failed_install_is_reported_and_the_batch_goes_on() {
    let mut app = App::from_probes(trio(), Platform::Linux, &vec![false, false, false]);
    select_all(&mut app);
    match app.press(key('i'), host()) {
        Action::RunShell(job) => assert_eq!(job.command, "apt install alpha"),
        other => panic!("unexpected action {:?}", other),
    }
    let action =
        app.process_finished(&ProcessOutcome::Exited("exit status: 100".to_string()), host());
    match action {
        Action::RunShell(job) => assert_eq!(job.command, "apt install gamma"),
        other => panic!("unexpected action {:?}", other),
    }
    assert_eq!(
        app.logs[0].message,
        "Error: command `apt install alpha` failed with status exit status: 100"
    );
    assert_eq!(app.logs[0].level, LogLevel::Error);
    let action =
        app.process_finished(&ProcessOutcome::SpawnFailed("not found".to_string()), host());
    assert!(matches!(action, Action::Refresh));
    assert_eq!(
        app.status,
        "Install failed for Gamma: failed to execute command `apt install gamma`: not found"
    );
    assert_eq!(
        app.logs.last().map(|l| l.message.as_str()),
        Some("Error: failed to execute command `apt install gamma`: not found")
    );
    assert!(app.batch.is_none());
}

#[test]
fn keys_are_ignored_while_a_batch_is_in_flight() {
    let mut app = App::from_probes(vec![xctl()], Platform::Linux, &vec![false]);
    assert!(matches!(app.press(key('i'), host()), Action::RunShell(_)));
    assert!(is_continue(&app.press(key('q'), host())));
    assert!(is_continue(&app.press(key('/'), host())));
    assert_eq!(app.mode, Mode::Normal);
    assert!(app.batch.is_some());
}

#[test]
fn outcome_without_a_batch_changes_nothing() {
    let mut app = App::from_probes(vec![xctl()], Platform::Linux, &vec![false]);
    assert!(is_continue(&app.process_finished(&ProcessOutcome::Succeeded, host())));
    assert!(app.logs.is_empty());
    assert!(app.batch.is_none());
}

#[test]
fn uninstall_of_installed_entry_waits_for_confirmation() {
    let mut app = App::from_probes(vec![xctl()], Platform::Linux, &vec![true]);
    assert!(is_continue(&app.press(key('u'), host())));
    assert_eq!(app.mode, Mode::ConfirmPending);
    assert!(app.confirm_selected);
    assert_eq!(app.status, "Press Enter to confirm uninstall, Esc to cancel.");
    assert_eq!(app.confirm_question(), "Are you sure you want to uninstall:\nX Control?");
    match &app.confirm_action {
        Some(tuihub::app::state::ConfirmAction::Uninstall(targets)) => {
            assert_eq!(targets.len(), 1);
            assert_eq!(targets[0].id, "x");
        }
        None => panic!("no confirmation pending"),
    }
}

#[test]
fn negative_answer_discards_the_uninstall() {
    let mut app = App::from_probes(vec![xctl()], Platform::Linux, &vec![true]);
    app.press(key('u'), host());
    app.press(special(Key::Left), host());
    assert!(!app.confirm_selected);
    let action = app.press(special(Key::Enter), host());
    assert!(is_continue(&action));
    assert_eq!(app.mode, Mode::Normal);
    assert!(app.confirm_action.is_none());
    assert!(app.batch.is_none());
    assert_eq!(app.status, "Uninstall cancelled.");
    assert_eq!(app.installed_ids, vec!["x"]);
    assert!(app.logs.is_empty());
}

#[test]
fn answer_can_be_changed_before_committing() {
    let mut app = App::from_probes(vec![xctl()], Platform::Linux, &vec![true]);
    app.press(key('u'), host());
    app.press(key('h'), host());
    assert!(!app.confirm_selected);
    app.press(key('l'), host());
    assert!(app.confirm_selected);
    app.press(special(Key::Left), host());
    app.press(special(Key::Right), host());
    assert!(app.confirm_selected);
    assert_eq!(app.mode, Mode::ConfirmPending);
}

#[test]
fn escape_and_q_cancel_the_confirmation() {
    for cancel in [special(Key::Esc), key('q')] {
        let mut app = App::from_probes(vec![xctl()], Platform::Linux, &vec![true]);
        app.press(key('u'), host());
        assert!(is_continue(&app.press(cancel, host())));
        assert_eq!(app.mode, Mode::Normal);
        assert!(app.confirm_action.is_none());
        assert_eq!(app.status, "Uninstall cancelled.");
        assert!(app.batch.is_none());
    }
}

#[test]
fn affirmative_answer_runs_the_uninstall_commands_in_order() {
    let mut app = App::from_probes(trio(), Platform::Linux, &vec![true, true, true]);
    select_all(&mut app);
    app.press(key('u'), host());
    assert_eq!(app.confirm_question(), "Are you sure you want to uninstall:\nAlpha, Gamma?");
    let action = app.press(special(Key::Enter), host());
    assert_eq!(app.mode, Mode::Normal);
    assert!(app.confirm_action.is_none());
    match action {
        Action::RunShell(job) => {
            assert_eq!(job.command, "apt remove alpha");
            assert_eq!(
                job.advisory,
                "About to run uninstall command for Alpha.\n\nCommand:\napt remove alpha\n\nIf sudo asks for password, type normally."
            );
        }
        other => panic!("unexpected action {:?}", other),
    }
    assert_eq!(app.status, "Uninstalling Alpha using: apt remove alpha");
    let action = app.process_finished(&ProcessOutcome::Exited("exit status: 1".to_string()), host());
    match action {
        Action::RunShell(job) => assert_eq!(job.command, "apt remove gamma"),
        other => panic!("unexpected action {:?}", other),
    }
    assert_eq!(
        app.logs[0].message,
        "Error: command `apt remove alpha` failed with status exit status: 1"
    );
    let action = app.process_finished(&ProcessOutcome::Succeeded, host());
    assert!(matches!(action, Action::Refresh));
    assert_eq!(app.status, "Uninstalled Gamma successfully.");
    assert_eq!(app.logs.last().map(|l| l.message.as_str()), Some("Uninstalled Gamma"));
    app.set_installed(&vec![true, true, false]);
    assert_eq!(app.installed_ids, vec!["a", "b"]);
}

#[test]
fn uninstall_of_mixed_set_confirms_the_qualifying_subset_only() {
    let mut app = App::from_probes(trio(), Platform::Linux, &vec![true, true, false]);
    select_all(&mut app);
    app.press(key('u'), host());
    assert_eq!(app.mode, Mode::ConfirmPending);
    match &app.confirm_action {
        Some(tuihub::app::state::ConfirmAction::Uninstall(targets)) => {
            let ids: Vec<&str> = targets.iter().map(|t| t.id.as_str()).collect();
            assert_eq!(ids, vec!["a"]);
        }
        None => panic!("no confirmation pending"),
    }
}

#[test]
fn uninstall_of_entries_that_are_not_installed_says_so() {
    let mut app = App::from_probes(trio(), Platform::Linux, &vec![false, true, false]);
    select_all(&mut app);
    assert!(is_continue(&app.press(key('u'), Host { now: 9, ..host() })));
    assert_eq!(app.mode, Mode::Normal);
    assert!(app.confirm_action.is_none());
    assert_eq!(app.status, "Alpha, Gamma not installed.");
    assert_eq!(app.logs.len(), 1);
    assert_eq!(app.logs[0].message, "Alpha, Gamma not installed");
    assert_eq!(app.logs[0].level, LogLevel::Info);
}

#[test]
fn uninstall_of_installed_entry_without_command_says_so() {
    let mut app = App::from_probes(trio(), Platform::Linux, &vec![false, true, false]);
    app.move_down();
    assert!(is_continue(&app.press(key('U'), host())));
    assert_eq!(app.mode, Mode::Normal);
    assert_eq!(app.status, "No uninstall command defined for selected apps on this platform.");
    assert!(app.logs.is_empty());
}

#[test]
fn uninstall_without_target_reports_it() {
    let mut app = App::from_probes(Vec::new(), Platform::Linux, &Vec::new());
    assert!(is_continue(&app.press(key('u'), host())));
    assert_eq!(app.status, "No app selected to uninstall.");
    assert_eq!(app.mode, Mode::Normal);
}

#[test]
fn launch_without_multiplexer_is_called_off_with_a_hint() {
    let mut app = App::from_probes(trio(), Platform::Mac, &vec![true, true, true]);
    select_all(&mut app);
    let action = app.press(key('l'), Host { tmux_present: false, ..host() });
    assert!(is_continue(&action));
    assert_eq!(app.status, "tmux is required for launch. Install tmux: brew install tmux");
    assert!(app.batch.is_none());
    assert!(app.logs.is_empty());
}

#[test]
fn launch_without_target_reports_it() {
    let mut app = App::from_probes(Vec::new(), Platform::Linux, &Vec::new());
    assert!(is_continue(&app.press(key('l'), host())));
    assert_eq!(app.status, "No app selected or focused to launch.");
    assert!(is_continue(&app.press(special(Key::Enter), host())));
    assert_eq!(app.status, "No app focused to launch.");
}

#[test]
fn launch_outside_a_session_creates_sessions_and_skips_missing_entries() {
    let mut app = App::from_probes(trio(), Platform::Linux, &vec![false, true, true]);
    select_all(&mut app);
    let action = app.press(key('l'), host());
    let plan = match action {
        Action::Launch(plan) => plan,
        other => panic!("unexpected action {:?}", other),
    };
    assert_eq!(plan.kind, LaunchKind::Session);
    assert_eq!(plan.name, "tuihub-b-1700000000-0");
    assert_eq!(plan.binary, "beta");
    assert_eq!(plan.args(), vec!["new-session", "-d", "-s", "tuihub-b-1700000000-0", "beta"]);
    assert_eq!(app.logs.len(), 1);
    assert_eq!(app.logs[0].message, "Alpha not installed");
    let action = app.process_finished(
        &ProcessOutcome::Succeeded,
        Host { timestamp: 1700000007, ..host() },
    );
    assert_eq!(
        app.status,
        "Launched Beta in tmux session 'tuihub-b-1700000000-0'. Attach: tmux attach -t tuihub-b-1700000000-0"
    );
    assert_eq!(
        app.logs.last().map(|l| l.message.as_str()),
        Some("Session 'tuihub-b-1700000000-0' opened")
    );
    match action {
        Action::Launch(plan) => assert_eq!(plan.name, "tuihub-c-1700000007-1"),
        other => panic!("unexpected action {:?}", other),
    }
    let action = app.process_finished(
        &ProcessOutcome::Exited("exit status: 1".to_string()),
        host(),
    );
    assert!(is_continue(&action));
    assert!(app.batch.is_none());
    assert_eq!(
        app.status,
        "Launch failed for Gamma: failed to create tmux session 'tuihub-c-1700000007-1' (status: exit status: 1)"
    );
    assert_eq!(
        app.logs.last().map(|l| l.message.as_str()),
        Some("Error: failed to create tmux session 'tuihub-c-1700000007-1' (status: exit status: 1)")
    );
    assert_eq!(app.logs.last().map(|l| l.level), Some(LogLevel::Error));
}

#[test]
fn launch_inside_a_session_opens_a_window() {
    let mut app = App::from_probes(vec![xctl()], Platform::Linux, &vec![true]);
    let action = app.press(key('L'), Host { in_tmux: true, ..host() });
    match action {
        Action::Launch(plan) => {
            assert_eq!(plan.kind, LaunchKind::Window);
            assert_eq!(plan.name, "th-x-1700000000-0");
            assert_eq!(plan.args(), vec!["new-window", "-n", "th-x-1700000000-0", "xctl"]);
        }
        other => panic!("unexpected action {:?}", other),
    }
    let action = app.process_finished(&ProcessOutcome::Succeeded, host());
    assert!(is_continue(&action));
    assert_eq!(app.status, "Launched X Control in tmux window 'th-x-1700000000-0'.");
    assert_eq!(app.logs[0].message, "Window 'th-x-1700000000-0' opened");
    assert_eq!(app.logs[0].level, LogLevel::Info);
}

#[test]
fn launch_of_only_missing_entries_reports_each() {
    let mut app = App::from_probes(trio(), Platform::Linux, &vec![false, false, false]);
    let action = app.press(key('l'), host());
    assert!(is_continue(&action));
    assert_eq!(app.status, "Alpha is not installed yet. Install first.");
    assert_eq!(app.logs[0].message, "Alpha not installed");
    assert!(app.batch.is_none());
}

#[test]
fn quick_launch_acts_on_the_focused_entry_whatever_is_selected() {
    let mut app = App::from_probes(trio(), Platform::Linux, &vec![true, true, false]);
    app.toggle_selected_current();
    app.move_down();
    match app.press(special(Key::Enter), host()) {
        Action::Launch(plan) => assert_eq!(plan.binary, "beta"),
        other => panic!("unexpected action {:?}", other),
    }
    assert!(is_continue(&app.process_finished(&ProcessOutcome::Succeeded, host())));
    app.move_down();
    assert!(is_continue(&app.press(special(Key::Enter), host())));
    assert_eq!(app.status, "Gamma is not installed. Press I to install.");
    assert!(is_continue(
        &app.press(special(Key::Enter), Host { tmux_present: false, ..host() })
    ));
    assert_eq!(app.status, "tmux is required for launch. Install tmux: sudo apt install tmux");
}

#[test]
fn failed_window_spawn_is_reported() {
    let mut app = App::from_probes(vec![xctl()], Platform::Linux, &vec![true]);
    app.press(key('l'), Host { in_tmux: true, ..host() });
    let action = app.process_finished(&ProcessOutcome::SpawnFailed("gone".to_string()), host());
    assert!(is_continue(&action));
    assert_eq!(
        app.status,
        "Launch failed for X Control: failed to create tmux window 'th-x-1700000000-0': gone"
    );
    assert_eq!(
        app.logs[0].message,
        "Error: failed to create tmux window 'th-x-1700000000-0': gone"
    );
}

#[test]
fn handle_key_never_leaves_a_refresh_to_the_caller() {
    let mut target = xctl();
    target.binary = "sh".to_string();
    let mut app = App::new(vec![target], Platform::Linux);
    assert_eq!(app.installed_ids, vec!["x"]);
    let action = app.handle_key(key('i'), false);
    assert!(is_continue(&action));
    assert_eq!(app.status, "X Control already installed");
    assert_eq!(app.installed_ids, vec!["x"]);
    assert!(matches!(app.handle_key(key('q'), false), Action::Quit));
}

#[test]
fn handle_outcome_refreshes_the_installed_set_at_the_end_of_a_batch() {
    let mut target = xctl();
    target.binary = "sh".to_string();
    let mut app = App::from_probes(vec![target], Platform::Linux, &vec![false]);
    assert!(app.installed_ids.is_empty());
    assert!(matches!(app.handle_key(key('i'), false), Action::RunShell(_)));
    let action = app.handle_outcome(&ProcessOutcome::Succeeded, false);
    assert!(is_continue(&action));
    assert_eq!(app.installed_ids, vec!["x"]);
    assert_eq!(app.status, "Installed X Control successfully.");
    app.handle_key(special(Key::Tab), false);
    assert_eq!(app.filtered_indices, vec![0]);
}

#[test]
fn handle_key_uninstall_with_negative_answer_runs_nothing() {
    let mut target = xctl();
    target.binary = "sh".to_string();
    let mut app = App::new(vec![target], Platform::Linux);
    assert!(is_continue(&app.handle_key(key('u'), false)));
    assert_eq!(app.mode, Mode::ConfirmPending);
    assert!(is_continue(&app.handle_key(special(Key::Left), false)));
    assert!(is_continue(&app.handle_key(special(Key::Enter), false)));
    assert_eq!(app.mode, Mode::Normal);
    assert_eq!(app.installed_ids, vec!["x"]);
    assert!(app.batch.is_none());
}

#[test]
fn later_launches_of_a_batch_are_named_after_the_current_time() {
    let mut app = App::from_probes(trio(), Platform::Linux, &vec![true, false, true]);
    select_all(&mut app);
    assert!(matches!(app.press(key('l'), host()), Action::Launch(_)));
    let before = std::time::SystemTime::now()
        .duration_since(std::time::UNIX_EPOCH)
        .unwrap()
        .as_secs();
    let action = app.handle_outcome(&ProcessOutcome::Succeeded, true);
    let plan = match action {
        Action::Launch(plan) => plan,
        other => panic!("unexpected action {:?}", other),
    };
    assert_eq!(plan.kind, LaunchKind::Window);
    let suffix = plan.name.strip_prefix("th-c-").unwrap();
    let stamp: u64 = suffix.strip_suffix("-1").unwrap().parse().unwrap();
    assert!(stamp >= before);
    assert!(stamp <= before + 5);
    assert_eq!(app.launches, 2);
    assert_eq!(app.logs.last().map(|l| l.message.as_str()), Some("Beta not installed"));
}

#[test]
fn notifications_are_dated_by_a_clock_that_does_not_run_backwards() {
    let mut app = App::from_probes(trio(), Platform::Linux, &vec![false, false, false]);
    app.log("first".to_string(), LogLevel::Info);
    let started = std::time::Instant::now();
    while started.elapsed() < std::time::Duration::from_millis(5) {
        std::hint::spin_loop();
    }
    app.log("second".to_string(), LogLevel::Info);
    assert_eq!(app.logs.len(), 2);
    assert!(app.logs[1].created_at >= app.logs[0].created_at + 5_000_000);
    assert!(app.logs[1].created_at < 3_000_000_000);
}

#[test]
fn install_tells_of_a_missing_command_before_anything_else() {
    let mut app = App::from_probes(trio(), Platform::Linux, &vec![false, true, false]);
    app.move_down();
    assert!(matches!(app.press(key('i'), host()), Action::Refresh));
    assert_eq!(app.status, "No install command defined for Beta on Linux.");
    assert!(app.logs.is_empty());
    assert!(app.batch.is_none());
}

#[test]
fn uninstall_batch_tells_of_a_missing_command_and_goes_on() {
    let mut app = App::from_probes(trio(), Platform::Linux, &vec![true, true, true]);
    app.batch =
        Some(Batch { kind: BatchKind::Uninstall, targets: trio(), next: 1, launch: None });
    match app.advance(host()) {
        Action::RunShell(job) => assert_eq!(job.command, "apt remove gamma"),
        other => panic!("unexpected action {:?}", other),
    }
    assert_eq!(app.status, "Uninstalling Gamma using: apt remove gamma");
    assert!(app.logs.is_empty());
    let mut app = App::from_probes(trio(), Platform::Mac, &vec![true, true, true]);
    app.batch =
        Some(Batch { kind: BatchKind::Uninstall, targets: trio(), next: 2, launch: None });
    assert!(matches!(app.advance(host()), Action::Refresh));
    assert_eq!(app.status, "No uninstall command defined for Gamma on macOS.");
}

#[test]
fn repeated_launches_of_one_entry_within_a_second_get_different_names() {
    let mut app = App::from_probes(vec![xctl()], Platform::Linux, &vec![true]);
    let mut names = Vec::new();
    for round in 0..5u64 {
        assert_eq!(app.launches, round);
        let press = if round % 2 == 0 { key('l') } else { special(Key::Enter) };
        match app.press(press, host()) {
            Action::Launch(plan) => names.push(plan.name),
            other => panic!("unexpected action {:?}", other),
        }
        assert!(is_continue(&app.process_finished(&ProcessOutcome::Succeeded, host())));
    }
    assert_eq!(app.launches, 5);
    assert_eq!(names[0], "tuihub-x-1700000000-0");
    assert_eq!(names[4], "tuihub-x-1700000000-4");
    for i in 0..names.len() {
        for j in 0..i {
            assert_ne!(names[i], names[j]);
        }
    }
}

#[test]
fn skipped_targets_take_no_serial_number() {
    let mut app = App::from_probes(trio(), Platform::Linux, &vec![false, false, true]);
    select_all(&mut app);
    match app.press(key('l'), host()) {
        Action::Launch(plan) => assert_eq!(plan.name, "tuihub-c-1700000000-0"),
        other => panic!("unexpected action {:?}", other),
    }
    assert_eq!(app.launches, 1);
    app.press(key('i'), host());
    assert_eq!(app.launches, 1);
}

#[test]
fn the_origin_of_the_clock_never_changes() {
    let mut app = App::from_probes(trio(), Platform::Linux, &vec![true, false, true]);
    let origin = app.started;
    app.set_status("x".to_string());
    app.log("a".to_string(), LogLevel::Info);
    app.move_down();
    app.toggle_selected_current();
    app.press(key('/'), host());
    app.press(key('a'), host());
    app.press(special(Key::Enter), host());
    app.handle_key(key('i'), false);
    app.handle_outcome(&ProcessOutcome::Succeeded, false);
    app.refresh_installed_cache();
    app.prune_logs();
    assert_eq!(app.started, origin);
}
