//! The transitions of the input state machine on the model: what an intent and
//! the end of an external command do to the state, and which action they ask of
//! the driver.

use vstd::prelude::*;
use crate::app::keys::{Intent, intent_mode, intent_of, KeyPress};
use crate::app::model::Model;
use crate::app::report::{
    advisory_text,
    already_installed_text,
    cancelled_text,
    comma_joined,
    confirm_prompt_text,
    done_status_text,
    done_text,
    error_text,
    failed_status_text,
    install_first_text,
    launch_failed_text,
    launched_text,
    no_command_text,
    no_uninstall_command_text,
    not_installed_status_text,
    not_installed_text,
    nothing_focused_text,
    nothing_selected_text,
    nothing_to_launch_text,
    opened_text,
    press_install_text,
    running_text,
    search_applied_text,
    search_cleared_text,
    tmux_required_text,
    unknown_platform_text,
};
use crate::app::state::{BatchKind, BatchView, LogLevel, Mode, Tab};
use crate::registry::model::{CommandsView, EntryView};
use crate::system::exec::{command_for, OutcomeView, shell_failure, shell_for};
use crate::system::os::Platform;
use crate::system::tmux::{
    launch_failure,
    launch_kind,
    launch_plan_of,
    LaunchPlan,
    LaunchView,
    lemma_launch_names_differ,
};

verus! {

/// What the host reports when an intent is dispatched: the reading of the
/// notification clock in nanoseconds, whether the multiplexer is discoverable,
/// whether the process runs inside a multiplexer session, and the Unix time in
/// seconds, which goes into the names of launches.
#[derive(Debug, Clone, Copy)]
pub struct Host {
    pub now: u64,
    pub tmux_present: bool,
    pub in_tmux: bool,
    pub timestamp: i64,
}

/// A shell command to run with the interactive surface suspended: the advisory
/// to show first, the interpreter, its one-shot flag, and the command line.
#[derive(Debug)]
pub struct ShellJob {
    pub advisory: String,
    pub shell: String,
    pub flag: String,
    pub command: String,
}

/// The mathematical content of a [`ShellJob`].
pub ghost struct ShellView {
    pub advisory: Seq<char>,
    pub shell: Seq<char>,
    pub flag: Seq<char>,
    pub command: Seq<char>,
}

impl View for ShellJob {
    type V = ShellView;

    open spec fn view(&self) -> ShellView {
        ShellView {
            advisory: self.advisory@,
            shell: self.shell@,
            flag: self.flag@,
            command: self.command@,
        }
    }
}

/// What the driver of the state machine has to do after a dispatch.
#[derive(Debug)]
pub enum Action {
    /// Nothing: redraw and wait for the next key.
    Continue,
    /// Leave the event loop.
    Quit,
    /// Run the shell command and report how it ended.
    RunShell(ShellJob),
    /// Invoke the multiplexer for the launch and report how it ended.
    Launch(LaunchPlan),
    /// Probe the installed state anew and hand over the probes.
    Refresh,
}

/// The mathematical content of an [`Action`].
pub ghost enum ActionView {
    Continue,
    Quit,
    RunShell(ShellView),
    Launch(LaunchView),
    Refresh,
}

impl View for Action {
    type V = ActionView;

    open spec fn view(&self) -> ActionView {
        match self {
            Action::Continue => ActionView::Continue,
            Action::Quit => ActionView::Quit,
            Action::RunShell(job) => ActionView::RunShell(job@),
            Action::Launch(plan) => ActionView::Launch(plan@),
            Action::Refresh => ActionView::Refresh,
        }
    }
}

/// The count of launches after one more launch is planned.
pub open spec fn next_serial(launches: u64) -> u64 {
    if launches < u64::MAX {
        (launches + 1) as u64
    } else {
        launches
    }
}

/// The commands of an entry that a shell batch of the given kind runs.
pub open spec fn batch_commands(kind: BatchKind, entry: EntryView) -> CommandsView {
    match kind {
        BatchKind::Uninstall => entry.uninstall,
        _ => entry.install,
    }
}

/// The shell job of an entry in a shell batch, for a resolved command.
pub open spec fn shell_job_of(
    kind: BatchKind,
    entry: EntryView,
    command: Seq<char>,
    platform: Platform,
) -> ShellView {
    ShellView {
        advisory: advisory_text(kind, entry.name, command),
        shell: shell_for(platform).0,
        flag: shell_for(platform).1,
        command,
    }
}

impl Model {
    /// How many targets of the batch in flight are still to be processed.
    pub open spec fn remaining(self) -> nat {
        match self.batch {
            Some(batch) => if batch.next < batch.targets.len() {
                (batch.targets.len() - batch.next) as nat
            } else {
                0
            },
            None => 0,
        }
    }

    /// The state with a batch started over the given targets.
    pub open spec fn with_batch(self, kind: BatchKind, targets: Seq<EntryView>) -> Model {
        Model { batch: Some(BatchView { kind, targets, next: 0, launch: None }), ..self }
    }

    /// The state with the batch in flight moved on to its next target, if it has
    /// one, and with nothing awaited.
    pub open spec fn stepped(self) -> Model {
        match self.batch {
            Some(batch) => Model {
                batch: Some(
                    BatchView {
                        next: if batch.next < batch.targets.len() {
                            batch.next + 1
                        } else {
                            batch.next
                        },
                        launch: None,
                        ..batch
                    },
                ),
                ..self
            },
            None => self,
        }
    }

    /// The target of the batch in flight that is next in line, if there is one.
    pub open spec fn next_target(self) -> Option<EntryView> {
        match self.batch {
            Some(batch) if batch.next < batch.targets.len() => Some(
                batch.targets[batch.next as int],
            ),
            _ => None,
        }
    }

    /// The state after a target of a batch has been told that nothing is run for
    /// it, or `None` if there is something to run. A shell batch passes over a
    /// target without a command for the platform, and an install over a target
    /// that is installed already; a launch passes over a target that is not
    /// installed. Each leaves a word in the status line, and the informational
    /// ones a notification as well.
    pub open spec fn skipped(self, kind: BatchKind, entry: EntryView, now: u64) -> Option<Model> {
        match kind {
            BatchKind::Launch => if self.installed.contains(entry.id) {
                None
            } else {
                Some(
                    self.with_status(install_first_text(entry.name)).logged(
                        not_installed_text(entry.name),
                        LogLevel::Info,
                        now,
                    ),
                )
            },
            _ => if command_for(batch_commands(kind, entry), self.platform) is None {
                Some(self.with_status(no_command_text(kind, entry.name, self.platform)))
            } else if kind == BatchKind::Install && self.installed.contains(entry.id) {
                Some(
                    self.with_status(already_installed_text(entry.name)).logged(
                        already_installed_text(entry.name),
                        LogLevel::Info,
                        now,
                    ),
                )
            } else {
                None
            },
        }
    }

    /// The state after the target next in line has been passed over, if nothing
    /// is to be run for it.
    pub open spec fn passed_over(self, host: Host) -> Option<Model> {
        match (self.batch, self.next_target()) {
            (Some(batch), Some(entry)) => match self.skipped(batch.kind, entry, host.now) {
                Some(told) => Some(told.stepped()),
                None => None,
            },
            _ => None,
        }
    }

    /// The command for the target next in line, with the state while it runs:
    /// a shell batch announces the command in the status line and asks for it to
    /// be run under the platform's shell; a launch takes the count of launches
    /// as its serial number, raises the count, notes the plan it awaits and asks
    /// for it to be carried out.
    pub open spec fn dispatched(self, host: Host) -> (Model, ActionView) {
        match (self.batch, self.next_target()) {
            (Some(batch), Some(entry)) => match batch.kind {
                BatchKind::Launch => {
                    let plan = launch_plan_of(
                        entry,
                        host.timestamp as int,
                        self.launches as nat,
                        host.in_tmux,
                    );
                    (
                        Model {
                            batch: Some(BatchView { launch: Some(plan), ..batch }),
                            launches: next_serial(self.launches),
                            ..self
                        },
                        ActionView::Launch(plan),
                    )
                },
                kind => match command_for(batch_commands(kind, entry), self.platform) {
                    Some(command) => (
                        self.with_status(running_text(kind, entry.name, command)),
                        ActionView::RunShell(shell_job_of(kind, entry, command, self.platform)),
                    ),
                    None => (self, ActionView::Continue),
                },
            },
            _ => (self, ActionView::Continue),
        }
    }

    /// Works through the batch in flight up to the next target that needs an
    /// external command, reporting every target that is passed over on the way,
    /// and returns the state with the command to run. At the end of the batch
    /// the batch is gone and, for install and uninstall, a refresh of the
    /// installed state is due.
    pub open spec fn advance(self, host: Host) -> (Model, ActionView)
        decreases self.remaining(),
    {
        match self.batch {
            None => (self, ActionView::Continue),
            Some(batch) => if batch.next >= batch.targets.len() {
                (
                    Model { batch: None, ..self },
                    if batch.kind == BatchKind::Launch {
                        ActionView::Continue
                    } else {
                        ActionView::Refresh
                    },
                )
            } else {
                match self.passed_over(host) {
                    Some(next) => next.advance(host),
                    None => self.dispatched(host),
                }
            },
        }
    }

    /// The state after the outcome of the awaited command is reported: a
    /// notification and a status line for success or failure. A failure never
    /// ends the batch.
    pub open spec fn reported(self, outcome: OutcomeView, now: u64) -> Model {
        match self.batch {
            Some(batch) if batch.next < batch.targets.len() => {
                let entry = batch.targets[batch.next as int];
                match batch.kind {
                    BatchKind::Launch => match batch.launch {
                        Some(plan) => match launch_failure(plan.kind, plan.name, outcome) {
                            None => self.logged(
                                opened_text(plan.kind, plan.name),
                                LogLevel::Info,
                                now,
                            ).with_status(launched_text(plan.kind, entry.name, plan.name)),
                            Some(reason) => self.logged(
                                error_text(reason),
                                LogLevel::Error,
                                now,
                            ).with_status(launch_failed_text(entry.name, reason)),
                        },
                        None => self,
                    },
                    _ => {
                        let command = match command_for(
                            batch_commands(batch.kind, entry),
                            self.platform,
                        ) {
                            Some(command) => command,
                            None => Seq::empty(),
                        };
                        match shell_failure(command, outcome) {
                            None => self.logged(
                                done_text(batch.kind, entry.name),
                                LogLevel::Success,
                                now,
                            ).with_status(done_status_text(batch.kind, entry.name)),
                            Some(reason) => self.logged(
                                error_text(reason),
                                LogLevel::Error,
                                now,
                            ).with_status(failed_status_text(batch.kind, entry.name, reason)),
                        }
                    },
                }
            },
            _ => self,
        }
    }

    /// The transition on the end of an external command: its outcome is
    /// reported for the awaited target, and the batch moves on.
    pub open spec fn finished(self, outcome: OutcomeView, host: Host) -> (Model, ActionView) {
        self.reported(outcome, host.now).stepped().advance(host)
    }

    /// Whether an uninstall applies to an entry: it is installed and the
    /// platform has an uninstall command for it.
    pub open spec fn qualifies(self, entry: EntryView) -> bool {
        self.installed.contains(entry.id) && command_for(entry.uninstall, self.platform) is Some
    }

    /// The targets an uninstall applies to, in target order.
    pub open spec fn qualifying(self) -> Seq<EntryView> {
        self.targets().filter(|e: EntryView| self.qualifies(e))
    }

    /// The names of the targets that are not installed, in target order.
    pub open spec fn missing_names(self) -> Seq<Seq<char>> {
        self.targets().filter(|e: EntryView| !self.installed.contains(e.id)).map_values(
            |e: EntryView| e.name,
        )
    }

    /// The state after an uninstall is requested. A confirmation becomes pending
    /// only if some target qualifies, and then for exactly the qualifying
    /// targets, with the affirmative answer preselected. Otherwise the state
    /// says why nothing is to be done.
    pub open spec fn uninstall_requested(self, now: u64) -> Model {
        if self.targets().len() == 0 {
            self.with_status(nothing_selected_text(BatchKind::Uninstall))
        } else if self.platform == Platform::Unknown {
            self.with_status(unknown_platform_text("uninstall"@))
        } else if self.qualifying().len() > 0 {
            Model {
                mode: Mode::ConfirmPending,
                confirm: Some(self.qualifying()),
                confirm_yes: true,
                status: confirm_prompt_text(),
                ..self
            }
        } else if self.missing_names().len() > 0 {
            self.with_status(not_installed_status_text(comma_joined(self.missing_names()))).logged(
                not_installed_text(comma_joined(self.missing_names())),
                LogLevel::Info,
                now,
            )
        } else {
            self.with_status(no_uninstall_command_text())
        }
    }

    /// The transition on a committed confirmation: with the affirmative answer
    /// the pending targets become an uninstall batch, with the negative one they
    /// are discarded. Either way the machine is back in normal mode.
    pub open spec fn confirm_committed(self, host: Host) -> (Model, ActionView) {
        let normal = Model { mode: Mode::Normal, confirm: None, ..self };
        match self.confirm {
            Some(targets) if self.confirm_yes => normal.with_batch(
                BatchKind::Uninstall,
                targets,
            ).advance(host),
            _ => (normal.with_status(cancelled_text()), ActionView::Continue),
        }
    }

    /// The transition on an install request.
    pub open spec fn install_requested(self, host: Host) -> (Model, ActionView) {
        if self.targets().len() == 0 {
            (self.with_status(nothing_selected_text(BatchKind::Install)), ActionView::Continue)
        } else if self.platform == Platform::Unknown {
            (self.with_status(unknown_platform_text("install"@)), ActionView::Continue)
        } else {
            self.with_batch(BatchKind::Install, self.targets()).advance(host)
        }
    }

    /// The transition on a launch request for the targets.
    pub open spec fn launch_requested(self, host: Host) -> (Model, ActionView) {
        if self.targets().len() == 0 {
            (self.with_status(nothing_to_launch_text()), ActionView::Continue)
        } else if !host.tmux_present {
            (self.with_status(tmux_required_text(self.platform)), ActionView::Continue)
        } else if self.platform == Platform::Unknown {
            (self.with_status(unknown_platform_text("launch"@)), ActionView::Continue)
        } else {
            self.with_batch(BatchKind::Launch, self.targets()).advance(host)
        }
    }

    /// The transition on a launch request for the entry under the cursor alone.
    pub open spec fn quick_launch_requested(self, host: Host) -> (Model, ActionView) {
        match self.current() {
            None => (self.with_status(nothing_focused_text()), ActionView::Continue),
            Some(entry) => if !host.tmux_present {
                (self.with_status(tmux_required_text(self.platform)), ActionView::Continue)
            } else if self.platform == Platform::Unknown {
                (self.with_status(unknown_platform_text("launch"@)), ActionView::Continue)
            } else if !self.installed.contains(entry.id) {
                (self.with_status(press_install_text(entry.name)), ActionView::Continue)
            } else {
                self.with_batch(BatchKind::Launch, seq![entry]).advance(host)
            },
        }
    }

    /// The query without its last character; an empty one stays empty.
    pub open spec fn shortened_query(self) -> Seq<char> {
        if self.query.len() > 0 {
            self.query.drop_last()
        } else {
            self.query
        }
    }

    /// The transition of the state machine on an intent. While a batch is in
    /// flight every intent is a no-op. An intent that does not belong to the
    /// mode is a no-op as well.
    pub open spec fn applied(self, intent: Intent, host: Host) -> (Model, ActionView) {
        if self.batch is Some || intent_mode(intent) != self.mode {
            (self, ActionView::Continue)
        } else {
            match intent {
                Intent::Ignore => (self, ActionView::Continue),
                Intent::Quit => (self, ActionView::Quit),
                Intent::MoveDown => (self.moved_down(), ActionView::Continue),
                Intent::MoveUp => (self.moved_up(), ActionView::Continue),
                Intent::NextTab => (
                    self.with_tab(Model::tab_after(self.tab)),
                    ActionView::Continue,
                ),
                Intent::PreviousTab => (
                    self.with_tab(Model::tab_before(self.tab)),
                    ActionView::Continue,
                ),
                Intent::CategoryLeft => (self.category_stepped_left(), ActionView::Continue),
                Intent::CategoryRight => (self.category_stepped_right(), ActionView::Continue),
                Intent::ToggleSelect => (self.toggled(), ActionView::Continue),
                Intent::ClearSelection => (
                    Model { selected: Set::empty(), ..self },
                    ActionView::Continue,
                ),
                Intent::StartSearch => (
                    Model { mode: Mode::SearchEditing, committed_query: self.query, ..self },
                    ActionView::Continue,
                ),
                Intent::ClearSearch => (
                    if self.query.len() > 0 {
                        self.with_query(Seq::empty()).with_status(search_cleared_text())
                    } else {
                        self
                    },
                    ActionView::Continue,
                ),
                Intent::QuickLaunch => self.quick_launch_requested(host),
                Intent::Install => self.install_requested(host),
                Intent::RequestUninstall => (
                    self.uninstall_requested(host.now),
                    ActionView::Continue,
                ),
                Intent::Launch => self.launch_requested(host),
                Intent::SearchInput(c) => (
                    self.with_query(self.query.push(c)),
                    ActionView::Continue,
                ),
                Intent::SearchBackspace => (
                    self.with_query(self.shortened_query()),
                    ActionView::Continue,
                ),
                Intent::SearchCommit => (
                    Model {
                        mode: Mode::Normal,
                        committed_query: self.query,
                        status: search_applied_text(self.query),
                        ..self
                    },
                    ActionView::Continue,
                ),
                Intent::SearchCancel => (
                    Model { mode: Mode::Normal, ..self.with_query(self.committed_query) },
                    ActionView::Continue,
                ),
                Intent::ChooseYes => (Model { confirm_yes: true, ..self }, ActionView::Continue),
                Intent::ChooseNo => (Model { confirm_yes: false, ..self }, ActionView::Continue),
                Intent::ConfirmCommit => self.confirm_committed(host),
                Intent::ConfirmCancel => (
                    Model { mode: Mode::Normal, confirm: None, ..self }.with_status(
                        cancelled_text(),
                    ),
                    ActionView::Continue,
                ),
            }
        }
    }

    /// The transition of the state machine on a key press: the key is read in
    /// the current mode and the intent applied.
    pub open spec fn pressed(self, press: KeyPress, host: Host) -> (Model, ActionView) {
        self.applied(intent_of(self.mode, press), host)
    }
}

/// The result of a transition once a due refresh of the installed state has
/// been carried out with the given probes.
pub open spec fn settled(result: (Model, ActionView), probes: Seq<bool>) -> (Model, ActionView) {
    if result.1 is Refresh {
        (result.0.with_probes(probes), ActionView::Continue)
    } else {
        result
    }
}

impl Model {
    /// An uninstall request leads to a pending confirmation only through a
    /// target that is installed and has an uninstall command: where no target
    /// qualifies the mode stays as it is, and where some do, the confirmation is
    /// pending for exactly the qualifying targets, in target order, with the
    /// affirmative answer preselected.
    pub proof fn lemma_confirm_flow(self, now: u64)
        ensures
            self.qualifying().len() == 0 ==> self.uninstall_requested(now).mode == self.mode
                && self.uninstall_requested(now).confirm == self.confirm,
            self.qualifying().len() > 0 ==> {
                &&& self.uninstall_requested(now).mode == Mode::ConfirmPending
                &&& self.uninstall_requested(now).confirm == Some(self.qualifying())
                &&& self.uninstall_requested(now).confirm_yes
            },
            forall|k: int|
                0 <= k < self.qualifying().len() ==> self.qualifies(
                    #[trigger] self.qualifying()[k],
                ) && self.targets().contains(self.qualifying()[k]),
            forall|i: int|
                0 <= i < self.targets().len() && self.qualifies(self.targets()[i])
                    ==> self.qualifying().contains(#[trigger] self.targets()[i]),
    {
        let keep = |e: EntryView| self.qualifies(e);
        let targets = self.targets();
        targets.lemma_filter_len(keep);
        assert forall|k: int| 0 <= k < self.qualifying().len() implies self.qualifies(
            #[trigger] self.qualifying()[k],
        ) && targets.contains(self.qualifying()[k]) by {
            targets.lemma_filter_pred(keep, k);
            targets.lemma_filter_contains_rev(keep, self.qualifying()[k]);
        }
        assert forall|i: int|
            0 <= i < targets.len() && self.qualifies(
                targets[i],
            ) implies self.qualifying().contains(#[trigger] targets[i]) by {
            targets.lemma_filter_contains(keep, i);
        }
        if self.qualifying().len() > 0 {
            let first = self.qualifying()[0];
            assert(self.qualifies(first));
            assert(self.platform != Platform::Unknown);
        }
    }
}

/// Whether two states agree in everything but the status line and the log.
pub open spec fn same_but_reports(a: Model, b: Model) -> bool {
    a == (Model { status: a.status, logs: a.logs, ..b })
}

impl Model {
    /// Working through a batch touches the status line, the log, the batch
    /// itself and the count of launches, and nothing else: in particular not the
    /// mode, the selection, the installed set or the list. The count of launches
    /// never falls.
    pub proof fn lemma_advance_frame(self, host: Host)
        ensures
            self.advance(host).0 == (Model {
                status: self.advance(host).0.status,
                logs: self.advance(host).0.logs,
                batch: self.advance(host).0.batch,
                launches: self.advance(host).0.launches,
                ..self
            }),
            self.advance(host).0.launches >= self.launches,
        decreases self.remaining(),
    {
        match self.passed_over(host) {
            Some(next) => {
                assert(self.advance(host) == next.advance(host));
                next.lemma_advance_frame(host);
            },
            None => {},
        }
    }

    /// The course of a batch does not depend on what has been reported so far:
    /// two states that differ in status line and log only are taken through
    /// the same targets and asked for the same commands.
    pub proof fn lemma_advance_agrees(self, other: Model, host: Host)
        requires
            same_but_reports(self, other),
        ensures
            self.advance(host).1 == other.advance(host).1,
            same_but_reports(self.advance(host).0, other.advance(host).0),
        decreases self.remaining(),
    {
        match self.passed_over(host) {
            Some(next) => {
                let twin = other.passed_over(host)->0;
                assert(self.advance(host) == next.advance(host));
                assert(other.advance(host) == twin.advance(host));
                next.lemma_advance_agrees(twin, host);
            },
            None => {},
        }
    }

    /// The failure of one target does not end the batch: however the awaited
    /// command ends, the batch moves on to the same next command, and at its
    /// end asks for the same refresh.
    pub proof fn lemma_failure_does_not_stop_batch(
        self,
        outcome: OutcomeView,
        other: OutcomeView,
        host: Host,
    )
        ensures
            self.finished(outcome, host).1 == self.finished(other, host).1,
            self.finished(outcome, host).0.batch == self.finished(other, host).0.batch,
    {
        let one = self.reported(outcome, host.now).stepped();
        let two = self.reported(other, host.now).stepped();
        one.lemma_advance_agrees(two, host);
    }

    /// A key without a meaning in the current mode changes nothing and asks for
    /// nothing, whatever the state.
    pub proof fn lemma_unrecognized_key_is_noop(self, press: KeyPress, host: Host)
        requires
            intent_of(self.mode, press) == Intent::Ignore,
        ensures
            self.pressed(press, host) == (self, ActionView::Continue),
    {
    }

    /// The mode changes along the edges of the state machine only. Editing of
    /// the query begins with the intent to search and ends with a commit or a
    /// cancel. A confirmation becomes pending only through an uninstall request
    /// for which some target qualifies, and ends with a commit or a cancel. The
    /// end of an external command never changes the mode.
    pub proof fn lemma_mode_transitions(self, intent: Intent, outcome: OutcomeView, host: Host)
        ensures
            self.finished(outcome, host).0.mode == self.mode,
            ({
                let next = self.applied(intent, host).0.mode;
                next != self.mode ==> match (self.mode, next) {
                    (Mode::Normal, Mode::SearchEditing) => intent == Intent::StartSearch,
                    (Mode::Normal, Mode::ConfirmPending) => intent == Intent::RequestUninstall
                        && self.qualifying().len() > 0,
                    (Mode::SearchEditing, Mode::Normal) => intent == Intent::SearchCommit || intent
                        == Intent::SearchCancel,
                    (Mode::ConfirmPending, Mode::Normal) => intent == Intent::ConfirmCommit
                        || intent == Intent::ConfirmCancel,
                    _ => false,
                }
            }),
    {
        self.reported(outcome, host.now).stepped().lemma_advance_frame(host);
        if self.batch is None && intent_mode(intent) == self.mode {
            match intent {
                Intent::QuickLaunch => {
                    match self.current() {
                        Some(entry) => {
                            self.with_batch(BatchKind::Launch, seq![entry]).lemma_advance_frame(
                                host,
                            );
                        },
                        None => {},
                    }
                },
                Intent::Install => {
                    self.with_batch(BatchKind::Install, self.targets()).lemma_advance_frame(host);
                },
                Intent::Launch => {
                    self.with_batch(BatchKind::Launch, self.targets()).lemma_advance_frame(host);
                },
                Intent::ConfirmCommit => {
                    match self.confirm {
                        Some(targets) => {
                            let normal = Model { mode: Mode::Normal, confirm: None, ..self };
                            normal.with_batch(BatchKind::Uninstall, targets).lemma_advance_frame(
                                host,
                            );
                        },
                        None => {},
                    }
                },
                Intent::RequestUninstall => {
                    self.lemma_confirm_flow(host.now);
                },
                _ => {},
            }
        }
    }
}

impl Model {
    /// Every launch that is planned takes the count of launches as its serial
    /// number and, short of the largest count, leaves a larger count behind.
    pub proof fn lemma_launch_takes_serial(self, host: Host)
        ensures
            self.dispatched(host).1 matches ActionView::Launch(plan) ==> {
                &&& self.next_target() matches Some(entry)
                &&& plan == launch_plan_of(
                    entry,
                    host.timestamp as int,
                    self.launches as nat,
                    host.in_tmux,
                )
                &&& self.dispatched(host).0.launches == next_serial(self.launches)
                &&& self.launches < u64::MAX ==> self.dispatched(host).0.launches > self.launches
            },
    {
    }

    /// Launches planned in states with different counts of launches never share
    /// a name, whatever the entries and however close in time: repeated launches
    /// of one entry do not collide.
    pub proof fn lemma_planned_launches_differ(self, host: Host, later: Model, later_host: Host)
        requires
            self.launches != later.launches,
        ensures
            self.dispatched(host).1 matches ActionView::Launch(plan) ==> (later.dispatched(
                later_host,
            ).1 matches ActionView::Launch(other) ==> plan.name != other.name),
    {
        match (self.dispatched(host).1, later.dispatched(later_host).1) {
            (ActionView::Launch(plan), ActionView::Launch(other)) => {
                let entry = self.next_target()->0;
                let twin = later.next_target()->0;
                lemma_launch_names_differ(
                    entry.id,
                    host.timestamp as int,
                    self.launches as nat,
                    launch_kind(host.in_tmux),
                    twin.id,
                    later_host.timestamp as int,
                    later.launches as nat,
                    launch_kind(later_host.in_tmux),
                );
            },
            _ => {},
        }
    }

    /// Working through a batch plans at most one launch. If it ends with a
    /// launch, that launch has taken the count of launches as its serial number
    /// and the count has been raised; otherwise the count is as it was.
    pub proof fn lemma_advance_counts(self, host: Host)
        ensures
            match self.advance(host).1 {
                ActionView::Launch(plan) => {
                    &&& self.advance(host).0.launches == next_serial(self.launches)
                    &&& exists|entry: EntryView|
                        plan == #[trigger] launch_plan_of(
                            entry,
                            host.timestamp as int,
                            self.launches as nat,
                            host.in_tmux,
                        )
                },
                _ => self.advance(host).0.launches == self.launches,
            },
        decreases self.remaining(),
    {
        match self.passed_over(host) {
            Some(next) => {
                assert(self.advance(host) == next.advance(host));
                next.lemma_advance_counts(host);
            },
            None => {
                match self.advance(host).1 {
                    ActionView::Launch(plan) => {
                        let entry = self.next_target()->0;
                        assert(plan == launch_plan_of(
                            entry,
                            host.timestamp as int,
                            self.launches as nat,
                            host.in_tmux,
                        ));
                    },
                    _ => {},
                }
            },
        }
    }

    /// Two passages through batches that start from different counts of
    /// launches never plan launches of the same name, whatever the entries and
    /// however close in time.
    pub proof fn lemma_repeated_launches_differ(
        self,
        host: Host,
        later: Model,
        later_host: Host,
    )
        requires
            self.launches != later.launches,
        ensures
            self.advance(host).1 matches ActionView::Launch(plan) ==> (later.advance(
                later_host,
            ).1 matches ActionView::Launch(other) ==> plan.name != other.name),
    {
        self.lemma_advance_counts(host);
        later.lemma_advance_counts(later_host);
        match (self.advance(host).1, later.advance(later_host).1) {
            (ActionView::Launch(plan), ActionView::Launch(other)) => {
                let entry = choose|entry: EntryView|
                    plan == #[trigger] launch_plan_of(
                        entry,
                        host.timestamp as int,
                        self.launches as nat,
                        host.in_tmux,
                    );
                let twin = choose|twin: EntryView|
                    other == #[trigger] launch_plan_of(
                        twin,
                        later_host.timestamp as int,
                        later.launches as nat,
                        later_host.in_tmux,
                    );
                lemma_launch_names_differ(
                    entry.id,
                    host.timestamp as int,
                    self.launches as nat,
                    launch_kind(host.in_tmux),
                    twin.id,
                    later_host.timestamp as int,
                    later.launches as nat,
                    launch_kind(later_host.in_tmux),
                );
            },
            _ => {},
        }
    }

    /// No transition of the state machine lowers the count of launches.
    pub proof fn lemma_launches_never_fall(self, intent: Intent, outcome: OutcomeView, host: Host)
        ensures
            self.applied(intent, host).0.launches >= self.launches,
            self.finished(outcome, host).0.launches >= self.launches,
    {
        self.reported(outcome, host.now).stepped().lemma_advance_frame(host);
        if self.batch is None && intent_mode(intent) == self.mode {
            match intent {
                Intent::QuickLaunch => {
                    match self.current() {
                        Some(entry) => {
                            self.with_batch(BatchKind::Launch, seq![entry]).lemma_advance_frame(
                                host,
                            );
                        },
                        None => {},
                    }
                },
                Intent::Install => {
                    self.with_batch(BatchKind::Install, self.targets()).lemma_advance_frame(host);
                },
                Intent::Launch => {
                    self.with_batch(BatchKind::Launch, self.targets()).lemma_advance_frame(host);
                },
                Intent::ConfirmCommit => {
                    match self.confirm {
                        Some(targets) => {
                            let normal = Model { mode: Mode::Normal, confirm: None, ..self };
                            normal.with_batch(BatchKind::Uninstall, targets).lemma_advance_frame(
                                host,
                            );
                        },
                        None => {},
                    }
                },
                _ => {},
            }
        }
    }
}

impl Model {
    /// Without the multiplexer a launch is called off at once, on every
    /// platform: nothing is planned or told, and the status line holds the hint
    /// how to get the multiplexer.
    pub proof fn lemma_missing_multiplexer_calls_off(self, host: Host)
        requires
            !host.tmux_present,
            self.mode == Mode::Normal,
            self.batch is None,
        ensures
            self.targets().len() > 0 ==> self.applied(Intent::Launch, host) == (
                self.with_status(tmux_required_text(self.platform)),
                ActionView::Continue,
            ),
            self.current() is Some ==> self.applied(Intent::QuickLaunch, host) == (
                self.with_status(tmux_required_text(self.platform)),
                ActionView::Continue,
            ),
    {
    }

    /// The install of the entry under the cursor, with nothing selected. For an
    /// entry that is not installed and has an install command for the platform,
    /// exactly that command is asked for, under the shell of the platform. When
    /// it has succeeded the batch is over and a refresh is due. After a refresh
    /// that finds the binary the entry is installed, and the tab of installed
    /// entries shows it, whatever the search query that showed it before.
    pub proof fn lemma_install_of_focused_entry(self, host: Host, probes: Seq<bool>)
        requires
            self.inv(),
            self.entries.len() <= usize::MAX,
            self.mode == Mode::Normal,
            self.batch is None,
            self.chosen().len() == 0,
            self.current() is Some,
            !self.installed.contains(self.current()->0.id),
            command_for(self.current()->0.install, self.platform) is Some,
        ensures
            ({
                let entry = self.current()->0;
                let position = self.filtered[self.cursor->0 as int];
                let command = command_for(entry.install, self.platform)->0;
                let asked = self.applied(Intent::Install, host);
                let ended = asked.0.finished(OutcomeView::Succeeded, host);
                let refreshed = ended.0.with_probes(probes);
                &&& asked.1 == ActionView::RunShell(
                    shell_job_of(BatchKind::Install, entry, command, self.platform),
                )
                &&& asked.0.batch is Some
                &&& ended.1 == ActionView::Refresh
                &&& ended.0.batch is None
                &&& position < probes.len() && probes[position as int] ==> {
                    &&& refreshed.installed.contains(entry.id)
                    &&& refreshed.with_tab(Tab::Installed).filtered.contains(position)
                }
            }),
    {
        let entry = self.current()->0;
        let position = self.filtered[self.cursor->0 as int];
        assert(self.targets() =~= seq![entry]);
        let started = self.with_batch(BatchKind::Install, self.targets());
        assert(started.next_target() == Some(entry));
        assert(started.skipped(BatchKind::Install, entry, host.now) is None);
        assert(started.passed_over(host) is None);
        let asked = self.applied(Intent::Install, host);
        assert(asked == started.dispatched(host));
        let told = asked.0.reported(OutcomeView::Succeeded, host.now).stepped();
        assert(told.batch->0.next == 1);
        assert(told.batch->0.targets.len() == 1);
        let ended = asked.0.finished(OutcomeView::Succeeded, host);
        assert(ended == told.advance(host));
        assert(ended.0.entries == self.entries);
        assert(ended.0.query == self.query);
        let refreshed = ended.0.with_probes(probes);
        if position < probes.len() && probes[position as int] {
            self.scope().lemma_visible_exact(self.entries.len());
            assert(self.scope().shows(position as int));
            assert(self.entries[position as int] == entry);
            assert(refreshed.installed.contains(entry.id));
            let shown = Model { tab: Tab::Installed, ..refreshed };
            assert(shown.scope().shows(position as int));
            shown.scope().lemma_visible_exact(shown.entries.len());
        }
    }
}

} // verus!
