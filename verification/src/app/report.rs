//! The wording of status lines, notifications and advisories.

use vstd::prelude::*;
use vstd::string::*;
use crate::app::state::BatchKind;
use crate::system::os::{label_text, Platform, platform_label};
use crate::system::tmux::{install_hint, LaunchKind, tmux_install_hint};
use crate::utils::text::{join2, join3, join4, join5};

verus! {

/// The action of a shell batch as a noun within a sentence.
pub open spec fn action_word(kind: BatchKind) -> Seq<char> {
    match kind {
        BatchKind::Uninstall => "uninstall"@,
        _ => "install"@,
    }
}

/// The action of a shell batch at the head of a sentence.
pub open spec fn action_title(kind: BatchKind) -> Seq<char> {
    match kind {
        BatchKind::Uninstall => "Uninstall"@,
        _ => "Install"@,
    }
}

/// The action of a shell batch while it runs.
pub open spec fn action_running(kind: BatchKind) -> Seq<char> {
    match kind {
        BatchKind::Uninstall => "Uninstalling "@,
        _ => "Installing "@,
    }
}

/// The action of a shell batch once it is done.
pub open spec fn action_done(kind: BatchKind) -> Seq<char> {
    match kind {
        BatchKind::Uninstall => "Uninstalled "@,
        _ => "Installed "@,
    }
}

/// The status line after a search query is committed.
pub open spec fn search_applied_text(query: Seq<char>) -> Seq<char> {
    "Search applied: '"@ + query + "'"@
}

/// The status line after the search query is cleared.
pub open spec fn search_cleared_text() -> Seq<char> {
    "Search cleared."@
}

/// The status line when a quick launch finds no entry under the cursor.
pub open spec fn nothing_focused_text() -> Seq<char> {
    "No app focused to launch."@
}

/// The status line when a launch finds no target.
pub open spec fn nothing_to_launch_text() -> Seq<char> {
    "No app selected or focused to launch."@
}

/// Nothing is selected or focused for a shell action.
pub open spec fn nothing_selected_text(kind: BatchKind) -> Seq<char> {
    "No app selected to "@ + action_word(kind) + "."@
}

/// The platform is unknown, so the named action is disabled.
pub open spec fn unknown_platform_text(action: Seq<char>) -> Seq<char> {
    "Unknown platform. Cannot "@ + action + "."@
}

/// The status line when the multiplexer is missing, with the hint how to get it.
pub open spec fn tmux_required_text(platform: Platform) -> Seq<char> {
    "tmux is required for launch. "@ + install_hint(platform)
}

/// The status line when a quick launch meets an entry that is not installed.
pub open spec fn press_install_text(name: Seq<char>) -> Seq<char> {
    name + " is not installed. Press I to install."@
}

/// The status line when a launch skips an entry that is not installed.
pub open spec fn install_first_text(name: Seq<char>) -> Seq<char> {
    name + " is not installed yet. Install first."@
}

/// The notification that the named entries are not installed.
pub open spec fn not_installed_text(names: Seq<char>) -> Seq<char> {
    names + " not installed"@
}

/// The status line that the named entries are not installed.
pub open spec fn not_installed_status_text(names: Seq<char>) -> Seq<char> {
    names + " not installed."@
}

/// The status line and notification when an install skips an installed entry.
pub open spec fn already_installed_text(name: Seq<char>) -> Seq<char> {
    name + " already installed"@
}

/// The status line when an entry has no command of a shell batch for the platform.
pub open spec fn no_command_text(kind: BatchKind, name: Seq<char>, platform: Platform) -> Seq<
    char,
> {
    "No "@ + action_word(kind) + " command defined for "@ + name + " on "@ + label_text(platform)
        + "."@
}

/// The status line when no target has an uninstall command for the platform.
pub open spec fn no_uninstall_command_text() -> Seq<char> {
    "No uninstall command defined for selected apps on this platform."@
}

/// The status line while a confirmation is pending.
pub open spec fn confirm_prompt_text() -> Seq<char> {
    "Press Enter to confirm uninstall, Esc to cancel."@
}

/// The status line after a pending uninstall is called off.
pub open spec fn cancelled_text() -> Seq<char> {
    "Uninstall cancelled."@
}

/// The status line while a shell command runs.
pub open spec fn running_text(kind: BatchKind, name: Seq<char>, command: Seq<char>) -> Seq<char> {
    action_running(kind) + name + " using: "@ + command
}

/// The advisory shown before the interactive surface is handed to a shell command.
pub open spec fn advisory_text(kind: BatchKind, name: Seq<char>, command: Seq<char>) -> Seq<
    char,
> {
    "About to run "@ + action_word(kind) + " command for "@ + name
        + ".\n\nCommand:\n"@ + command
        + "\n\nIf sudo asks for password, type normally."@
}

/// The notification of a shell command that succeeded.
pub open spec fn done_text(kind: BatchKind, name: Seq<char>) -> Seq<char> {
    action_done(kind) + name
}

/// The status line of a shell command that succeeded.
pub open spec fn done_status_text(kind: BatchKind, name: Seq<char>) -> Seq<char> {
    action_done(kind) + name + " successfully."@
}

/// The notification of any external command that failed.
pub open spec fn error_text(error: Seq<char>) -> Seq<char> {
    "Error: "@ + error
}

/// The status line of a shell command that failed.
pub open spec fn failed_status_text(kind: BatchKind, name: Seq<char>, error: Seq<char>) -> Seq<
    char,
> {
    action_title(kind) + " failed for "@ + name + ": "@ + error
}

/// The status line of a launch that failed.
pub open spec fn launch_failed_text(name: Seq<char>, error: Seq<char>) -> Seq<char> {
    "Launch failed for "@ + name + ": "@ + error
}

/// The notification of a launch that succeeded.
pub open spec fn opened_text(kind: LaunchKind, place: Seq<char>) -> Seq<char> {
    match kind {
        LaunchKind::Session => "Session '"@ + place + "' opened"@,
        LaunchKind::Window => "Window '"@ + place + "' opened"@,
    }
}

/// The status line of a launch that succeeded: a new session is to be attached
/// to, a new window is simply there.
pub open spec fn launched_text(kind: LaunchKind, name: Seq<char>, place: Seq<char>) -> Seq<char> {
    match kind {
        LaunchKind::Session => "Launched "@ + name + " in tmux session '"@ + place
            + "'. Attach: tmux attach -t "@ + place,
        LaunchKind::Window => "Launched "@ + name + " in tmux window '"@ + place + "'."@,
    }
}

/// The prompt of the confirmation dialog for the given names.
pub open spec fn confirm_question_text(names: Seq<char>) -> Seq<char> {
    "Are you sure you want to uninstall:\n"@ + names + "?"@
}

/// Texts joined by a comma and a space.
pub open spec fn comma_joined(texts: Seq<Seq<char>>) -> Seq<char>
    decreases texts.len(),
{
    if texts.len() == 0 {
        Seq::empty()
    } else if texts.len() == 1 {
        texts[0]
    } else {
        comma_joined(texts.drop_last()) + ", "@ + texts.last()
    }
}

/// The word of [`action_word`].
pub fn word_of(kind: BatchKind) -> (word: &'static str)
    ensures
        word@ == action_word(kind),
{
    match kind {
        BatchKind::Uninstall => "uninstall",
        _ => "install",
    }
}

/// The word of [`action_title`].
pub fn title_of(kind: BatchKind) -> (word: &'static str)
    ensures
        word@ == action_title(kind),
{
    match kind {
        BatchKind::Uninstall => "Uninstall",
        _ => "Install",
    }
}

/// The word of [`action_running`].
pub fn running_of(kind: BatchKind) -> (word: &'static str)
    ensures
        word@ == action_running(kind),
{
    match kind {
        BatchKind::Uninstall => "Uninstalling ",
        _ => "Installing ",
    }
}

/// The word of [`action_done`].
pub fn done_of(kind: BatchKind) -> (word: &'static str)
    ensures
        word@ == action_done(kind),
{
    match kind {
        BatchKind::Uninstall => "Uninstalled ",
        _ => "Installed ",
    }
}

/// The text of [`search_applied_text`] as a string.
pub fn search_applied(query: &str) -> (text: String)
    ensures
        text@ == search_applied_text(query@),
{
    join3("Search applied: '", query, "'")
}

/// The text of [`nothing_selected_text`] as a string.
pub fn nothing_selected(kind: BatchKind) -> (text: String)
    ensures
        text@ == nothing_selected_text(kind),
{
    join3("No app selected to ", word_of(kind), ".")
}

/// The text of [`unknown_platform_text`] as a string.
pub fn unknown_platform(action: &str) -> (text: String)
    ensures
        text@ == unknown_platform_text(action@),
{
    join3("Unknown platform. Cannot ", action, ".")
}

/// The text of [`tmux_required_text`] as a string.
pub fn tmux_required(platform: Platform) -> (text: String)
    ensures
        text@ == tmux_required_text(platform),
{
    join2("tmux is required for launch. ", tmux_install_hint(platform))
}

/// The text of [`press_install_text`] as a string.
pub fn press_install(name: &str) -> (text: String)
    ensures
        text@ == press_install_text(name@),
{
    join2(name, " is not installed. Press I to install.")
}

/// The text of [`install_first_text`] as a string.
pub fn install_first(name: &str) -> (text: String)
    ensures
        text@ == install_first_text(name@),
{
    join2(name, " is not installed yet. Install first.")
}

/// The text of [`not_installed_text`] as a string.
pub fn not_installed(names: &str) -> (text: String)
    ensures
        text@ == not_installed_text(names@),
{
    join2(names, " not installed")
}

/// The text of [`not_installed_status_text`] as a string.
pub fn not_installed_status(names: &str) -> (text: String)
    ensures
        text@ == not_installed_status_text(names@),
{
    join2(names, " not installed.")
}

/// The text of [`already_installed_text`] as a string.
pub fn already_installed(name: &str) -> (text: String)
    ensures
        text@ == already_installed_text(name@),
{
    join2(name, " already installed")
}

/// The text of [`no_command_text`] as a string.
pub fn no_command(kind: BatchKind, name: &str, platform: Platform) -> (text: String)
    ensures
        text@ == no_command_text(kind, name@, platform),
{
    let mut text = join5("No ", word_of(kind), " command defined for ", name, " on ");
    text.append(platform_label(platform));
    text.append(".");
    text
}

/// The text of [`running_text`] as a string.
pub fn running(kind: BatchKind, name: &str, command: &str) -> (text: String)
    ensures
        text@ == running_text(kind, name@, command@),
{
    join4(running_of(kind), name, " using: ", command)
}

/// The text of [`advisory_text`] as a string.
pub fn advisory(kind: BatchKind, name: &str, command: &str) -> (text: String)
    ensures
        text@ == advisory_text(kind, name@, command@),
{
    let mut text = join5(
        "About to run ",
        word_of(kind),
        " command for ",
        name,
        ".\n\nCommand:\n",
    );
    text.append(command);
    text.append("\n\nIf sudo asks for password, type normally.");
    text
}

/// The text of [`done_text`] as a string.
pub fn done(kind: BatchKind, name: &str) -> (text: String)
    ensures
        text@ == done_text(kind, name@),
{
    join2(done_of(kind), name)
}

/// The text of [`done_status_text`] as a string.
pub fn done_status(kind: BatchKind, name: &str) -> (text: String)
    ensures
        text@ == done_status_text(kind, name@),
{
    join3(done_of(kind), name, " successfully.")
}

/// The text of [`error_text`] as a string.
pub fn error_note(reason: &str) -> (text: String)
    ensures
        text@ == error_text(reason@),
{
    join2("Error: ", reason)
}

/// The text of [`failed_status_text`] as a string.
pub fn failed_status(kind: BatchKind, name: &str, reason: &str) -> (text: String)
    ensures
        text@ == failed_status_text(kind, name@, reason@),
{
    join5(title_of(kind), " failed for ", name, ": ", reason)
}

/// The text of [`launch_failed_text`] as a string.
pub fn launch_failed(name: &str, reason: &str) -> (text: String)
    ensures
        text@ == launch_failed_text(name@, reason@),
{
    join4("Launch failed for ", name, ": ", reason)
}

/// The text of [`opened_text`] as a string.
pub fn opened(kind: LaunchKind, place: &str) -> (text: String)
    ensures
        text@ == opened_text(kind, place@),
{
    match kind {
        LaunchKind::Session => join3("Session '", place, "' opened"),
        LaunchKind::Window => join3("Window '", place, "' opened"),
    }
}

/// The text of [`launched_text`] as a string.
pub fn launched(kind: LaunchKind, name: &str, place: &str) -> (text: String)
    ensures
        text@ == launched_text(kind, name@, place@),
{
    match kind {
        LaunchKind::Session => {
            let mut text = join5(
                "Launched ",
                name,
                " in tmux session '",
                place,
                "'. Attach: tmux attach -t ",
            );
            text.append(place);
            text
        },
        LaunchKind::Window => join5("Launched ", name, " in tmux window '", place, "'."),
    }
}

/// The text of [`confirm_question_text`] as a string.
pub fn confirm_question(names: &str) -> (text: String)
    ensures
        text@ == confirm_question_text(names@),
{
    join3("Are you sure you want to uninstall:\n", names, "?")
}

/// Joins texts by a comma and a space.
pub fn join_with_commas(texts: &Vec<String>) -> (joined: String)
    ensures
        joined@ == comma_joined(texts@.map_values(|t: String| t@)),
{
    let ghost all = texts@.map_values(|t: String| t@);
    let mut joined = String::new();
    let mut i: usize = 0;
    assert(all.take(0) =~= Seq::<Seq<char>>::empty());
    while i < texts.len()
        invariant
            i <= texts.len(),
            all == texts@.map_values(|t: String| t@),
            joined@ == comma_joined(all.take(i as int)),
        decreases texts.len() - i,
    {
        proof {
            let grown = all.take(i + 1);
            assert(grown.drop_last() =~= all.take(i as int));
            assert(grown.last() == texts@[i as int]@);
            if i == 0 {
                assert(Seq::<char>::empty() + texts@[0]@ =~= texts@[0]@);
            }
        }
        if i > 0 {
            joined.append(", ");
        }
        joined.append(texts[i].as_str());
        i += 1;
    }
    assert(all.take(texts@.len() as int) =~= all);
    joined
}

} // verus!
