//! Platform command dispatch, the shell that runs a command, the probe for a
//! binary on the search path, and the wording of a failed external process.

use vstd::prelude::*;
use crate::registry::model::{CommandsView, InstallCommands};
use crate::system::os::Platform;
use crate::utils::text::{
    contains_text,
    is_blank,
    is_blank_str,
    join4,
    lemma_part_occurs,
};

verus! {

/// The command configured for a platform, if that platform is known and its
/// command holds more than white space.
pub open spec fn command_for(commands: CommandsView, platform: Platform) -> Option<Seq<char>> {
    let configured = match platform {
        Platform::Linux => Some(commands.linux),
        Platform::Wsl => Some(commands.wsl),
        Platform::Mac => Some(commands.mac),
        Platform::Windows => Some(commands.windows),
        Platform::Unknown => None,
    };
    match configured {
        Some(text) if !is_blank(text) => Some(text),
        _ => None,
    }
}

/// The interpreter and the flag under which a command line runs once.
pub open spec fn shell_for(platform: Platform) -> (Seq<char>, Seq<char>) {
    match platform {
        Platform::Windows => ("cmd"@, "/C"@),
        _ => ("sh"@, "-lc"@),
    }
}

/// The content of an optional string slice.
pub open spec fn opt_text(text: Option<&str>) -> Option<Seq<char>> {
    match text {
        Some(t) => Some(t@),
        None => None,
    }
}

/// The command configured for a platform, or `None` if the platform is unknown
/// or its command is empty or blank.
pub fn command_for_platform(commands: &InstallCommands, platform: Platform) -> (command: Option<
    &str,
>)
    ensures
        opt_text(command) == command_for(commands@, platform),
{
    let configured: &String = match platform {
        Platform::Linux => &commands.linux,
        Platform::Wsl => &commands.wsl,
        Platform::Mac => &commands.mac,
        Platform::Windows => &commands.windows,
        Platform::Unknown => {
            return None;
        },
    };
    if is_blank_str(configured.as_str()) {
        None
    } else {
        Some(configured.as_str())
    }
}

/// The interpreter and the flag under which a command line runs once: the
/// command interpreter on Windows, the POSIX shell as login shell elsewhere.
pub fn shell_for_platform(platform: Platform) -> (shell: (&'static str, &'static str))
    ensures
        (shell.0@, shell.1@) == shell_for(platform),
{
    match platform {
        Platform::Windows => ("cmd", "/C"),
        _ => ("sh", "-lc"),
    }
}

/// Probes the executable search path with `which::which` and reports whether the
/// lookup found a file. The answer depends on the host's file system and
/// environment, so nothing is claimed about it.
#[verifier::external_body]
pub fn is_binary_installed(binary: &str) -> (found: bool) {
    which::which(binary).is_ok()
}

/// How an external process ended, as reported by whoever ran it.
#[derive(Debug)]
pub enum ProcessOutcome {
    /// The process ran and reported success.
    Succeeded,
    /// The process ran and ended with the given status, which is not success.
    Exited(String),
    /// The process could not be started; the text holds the reason.
    SpawnFailed(String),
}

/// The mathematical content of a [`ProcessOutcome`].
pub ghost enum OutcomeView {
    Succeeded,
    Exited(Seq<char>),
    SpawnFailed(Seq<char>),
}

impl View for ProcessOutcome {
    type V = OutcomeView;

    open spec fn view(&self) -> OutcomeView {
        match self {
            ProcessOutcome::Succeeded => OutcomeView::Succeeded,
            ProcessOutcome::Exited(status) => OutcomeView::Exited(status@),
            ProcessOutcome::SpawnFailed(reason) => OutcomeView::SpawnFailed(reason@),
        }
    }
}

/// The error text of a shell command that did not succeed. It carries the
/// literal command and, for a failed run, the exit status, for a failed start,
/// the reason. `None` on success.
pub open spec fn shell_failure(command: Seq<char>, outcome: OutcomeView) -> Option<Seq<char>> {
    match outcome {
        OutcomeView::Succeeded => None,
        OutcomeView::Exited(status) => Some(
            "command `"@ + command + "` failed with status "@ + status,
        ),
        OutcomeView::SpawnFailed(reason) => Some(
            "failed to execute command `"@ + command + "`: "@ + reason,
        ),
    }
}

/// The error of a shell command holds the literal command, and with it the
/// exit status of a failed run or the reason of a failed start.
pub proof fn lemma_shell_failure_carries(command: Seq<char>, outcome: OutcomeView)
    ensures
        shell_failure(command, outcome) is None <==> outcome is Succeeded,
        shell_failure(command, outcome) matches Some(text) ==> contains_text(text, command),
        outcome matches OutcomeView::Exited(status) ==> contains_text(
            shell_failure(command, outcome)->0,
            status,
        ),
        outcome matches OutcomeView::SpawnFailed(reason) ==> contains_text(
            shell_failure(command, outcome)->0,
            reason,
        ),
{
    match outcome {
        OutcomeView::Succeeded => {},
        OutcomeView::Exited(status) => {
            let text = shell_failure(command, outcome)->0;
            lemma_part_occurs("command `"@, command, "` failed with status "@ + status);
            assert(text =~= "command `"@ + command + ("` failed with status "@ + status));
            lemma_part_occurs(
                "command `"@ + command + "` failed with status "@,
                status,
                Seq::empty(),
            );
            assert(text =~= "command `"@ + command + "` failed with status "@ + status
                + Seq::<char>::empty());
        },
        OutcomeView::SpawnFailed(reason) => {
            let text = shell_failure(command, outcome)->0;
            lemma_part_occurs("failed to execute command `"@, command, "`: "@ + reason);
            assert(text =~= "failed to execute command `"@ + command + ("`: "@ + reason));
            lemma_part_occurs(
                "failed to execute command `"@ + command + "`: "@,
                reason,
                Seq::empty(),
            );
            assert(text =~= "failed to execute command `"@ + command + "`: "@ + reason
                + Seq::<char>::empty());
        },
    }
}

/// Turns the outcome of a shell command into `Ok` or the text of its error.
/// The result is `Ok` exactly for a command that ran and reported success.
pub fn shell_result(command: &str, outcome: &ProcessOutcome) -> (result: Result<(), String>)
    ensures
        result is Ok <==> outcome@ is Succeeded,
        match result {
            Ok(_) => shell_failure(command@, outcome@) is None,
            Err(text) => shell_failure(command@, outcome@) == Some(text@),
        },
        result matches Err(text) ==> contains_text(text@, command@),
{
    proof {
        lemma_shell_failure_carries(command@, outcome@);
    }
    match outcome {
        ProcessOutcome::Succeeded => Ok(()),
        ProcessOutcome::Exited(status) => Err(
            join4("command `", command, "` failed with status ", status.as_str()),
        ),
        ProcessOutcome::SpawnFailed(reason) => Err(
            join4("failed to execute command `", command, "`: ", reason.as_str()),
        ),
    }
}

} // verus!
