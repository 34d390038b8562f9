//! The input state machine at work: tab and category cycling, the dispatch of
//! an intent on the application state, and the passage through a batch of
//! external commands.

use vstd::prelude::*;
use vstd::string::*;
use crate::app::keys::{Intent, intent_for, KeyPress};
use crate::app::machine::{
    Action,
    ActionView,
    batch_commands,
    Host,
    next_serial,
    settled,
    shell_job_of,
    ShellJob,
};
use crate::app::model::Model;
use crate::app::report::{
    advisory,
    already_installed,
    cancelled_text,
    done,
    done_status,
    error_note,
    failed_status,
    install_first,
    join_with_commas,
    launch_failed,
    launched,
    no_command,
    not_installed,
    not_installed_status,
    nothing_selected,
    opened,
    press_install,
    running,
    running_text,
    search_applied,
    tmux_required,
    unknown_platform,
};
use crate::app::state::{App, Batch, BatchKind, BatchView, ConfirmAction, LogLevel, Mode, Tab};
use crate::registry::model::{AppEntry, entries_view, EntryView};
use crate::system::clock::elapsed_nanos;
use crate::system::exec::{
    command_for,
    command_for_platform,
    ProcessOutcome,
    shell_for_platform,
    shell_result,
};
use crate::system::os::Platform;
use crate::system::tmux::{
    has_tmux,
    launch_plan_of,
    launch_result,
    LaunchPlan,
    plan_launch,
    unix_timestamp,
};

verus! {

/// Recomputes the filtered list from the tab, the category and the search
/// query, then repairs the cursor.
pub fn refresh_filter(app: &mut App)
    ensures
        final(app)@ == old(app)@.refiltered(),
        final(app)@.filtered == final(app)@.visible(),
        final(app)@.cursor_fits(),
        old(app)@.steady() ==> final(app)@.inv(),
        old(app).ids_unique() ==> final(app).ids_unique(),
{
    app.refresh_filter();
}

/// Moves on to the next tab, wrapping, and recomputes the filter.
pub fn cycle_tab_right(app: &mut App)
    ensures
        final(app)@ == old(app)@.with_tab(Model::tab_after(old(app)@.tab)),
        old(app).wf() ==> final(app).wf(),
{
    app.selected_tab = match app.selected_tab {
        Tab::All => Tab::Installed,
        Tab::Installed => Tab::Categories,
        Tab::Categories => Tab::All,
    };
    app.refresh_filter();
}

/// Moves back to the previous tab, wrapping, and recomputes the filter.
pub fn cycle_tab_left(app: &mut App)
    ensures
        final(app)@ == old(app)@.with_tab(Model::tab_before(old(app)@.tab)),
        old(app).wf() ==> final(app).wf(),
{
    app.selected_tab = match app.selected_tab {
        Tab::All => Tab::Categories,
        Tab::Installed => Tab::All,
        Tab::Categories => Tab::Installed,
    };
    app.refresh_filter();
}

/// On the category tab, moves on to the next category, wrapping, and
/// recomputes the filter. On another tab nothing happens.
pub fn category_right(app: &mut App)
    ensures
        final(app)@ == old(app)@.category_stepped_right(),
        old(app).wf() ==> final(app).wf(),
{
    if app.selected_tab != Tab::Categories || app.categories.len() == 0 {
        return ;
    }
    let count = app.categories.len();
    app.selected_category = if app.selected_category < count - 1 {
        app.selected_category + 1
    } else {
        0
    };
    app.refresh_filter();
}

/// On the category tab, moves back to the previous category, wrapping, and
/// recomputes the filter. On another tab nothing happens.
pub fn category_left(app: &mut App)
    ensures
        final(app)@ == old(app)@.category_stepped_left(),
        old(app).wf() ==> final(app).wf(),
{
    if app.selected_tab != Tab::Categories || app.categories.len() == 0 {
        return ;
    }
    let count = app.categories.len();
    app.selected_category = if app.selected_category == 0 {
        count - 1
    } else {
        app.selected_category - 1
    };
    app.refresh_filter();
}

/// The shell job that runs a command for an entry in a shell batch.
fn shell_job(kind: BatchKind, entry: &AppEntry, command: &str, platform: Platform) -> (job:
    ShellJob)
    ensures
        job@ == shell_job_of(kind, entry@, command@, platform),
{
    let (shell, flag) = shell_for_platform(platform);
    ShellJob {
        advisory: advisory(kind, entry.name.as_str(), command),
        shell: String::from_str(shell),
        flag: String::from_str(flag),
        command: String::from_str(command),
    }
}

/// What to do with the target of a batch that is next in line.
enum Step {
    /// Nothing to run for this target: go on with the next one.
    Skip,
    /// Run the shell command.
    Shell(ShellJob),
    /// Carry out the launch.
    Start(LaunchPlan),
}

impl App {
    /// Looks at one target of a batch: tells it if nothing is run for it, or says
    /// what is to be run.
    fn examine(&mut self, kind: BatchKind, entry: &AppEntry, host: Host) -> (step: Step)
        requires
            old(self).batch is None,
        ensures
            final(self).batch is None,
            old(self).wf() ==> final(self).wf(),
            final(self)@.mode == old(self)@.mode,
            match old(self)@.skipped(kind, entry@, host.now) {
                Some(told) => step is Skip && final(self)@ == told,
                None => match step {
                    Step::Skip => false,
                    Step::Start(plan) => {
                        &&& kind == BatchKind::Launch
                        &&& plan@ == launch_plan_of(
                            entry@,
                            host.timestamp as int,
                            old(self)@.launches as nat,
                            host.in_tmux,
                        )
                        &&& final(self)@ == (Model {
                            launches: next_serial(old(self)@.launches),
                            ..old(self)@
                        })
                    },
                    Step::Shell(job) => {
                        &&& kind != BatchKind::Launch
                        &&& command_for(batch_commands(kind, entry@), old(self)@.platform)
                            matches Some(command)
                        &&& job@ == shell_job_of(kind, entry@, command, old(self)@.platform)
                        &&& final(self)@ == old(self)@.with_status(
                            running_text(kind, entry@.name, command),
                        )
                    },
                },
            },
    {
        let name = entry.name.as_str();
        if kind == BatchKind::Launch {
            if self.is_installed(entry) {
                let plan = plan_launch(entry, host.timestamp, self.launches, host.in_tmux);
                if self.launches < u64::MAX {
                    self.launches = self.launches + 1;
                }
                return Step::Start(plan);
            }
            self.set_status(install_first(name));
            self.log_at(not_installed(name), LogLevel::Info, host.now);
            return Step::Skip;
        }
        let commands = match kind {
            BatchKind::Uninstall => &entry.uninstall,
            _ => &entry.install,
        };
        match command_for_platform(commands, self.platform) {
            None => {
                self.set_status(no_command(kind, name, self.platform));
                Step::Skip
            },
            Some(command) => {
                if kind == BatchKind::Install && self.is_installed(entry) {
                    self.set_status(already_installed(name));
                    self.log_at(already_installed(name), LogLevel::Info, host.now);
                    Step::Skip
                } else {
                    self.set_status(running(kind, name, command));
                    Step::Shell(shell_job(kind, entry, command, self.platform))
                }
            },
        }
    }

    /// Works through the batch in flight up to the next target that needs an
    /// external command and returns that command. Targets that need none are
    /// reported and passed over. At the end of the batch the batch is dropped;
    /// after an install or uninstall batch the result asks for a refresh of the
    /// installed state.
    pub fn advance(&mut self, host: Host) -> (action: Action)
        ensures
            (final(self)@, action@) == old(self)@.advance(host),
            old(self).wf() ==> final(self).wf(),
    {
        let mut batch = match self.batch.take() {
            Some(batch) => batch,
            None => {
                return Action::Continue;
            },
        };
        let ghost goal = old(self)@.advance(host);
        assert((Model { batch: Some(batch@), ..self@ }) == old(self)@);
        loop
            invariant
                self.batch is None,
                goal == old(self)@.advance(host),
                (Model { batch: Some(batch@), ..self@ }).advance(host) == goal,
                old(self).wf() ==> self.wf() && self@.mode == Mode::Normal,
            decreases (Model { batch: Some(batch@), ..self@ }).remaining(),
        {
            let ghost whole = Model { batch: Some(batch@), ..self@ };
            if batch.next >= batch.targets.len() {
                assert(self@ == (Model { batch: None, ..whole }));
                return if batch.kind == BatchKind::Launch {
                    Action::Continue
                } else {
                    Action::Refresh
                };
            }
            let kind = batch.kind;
            assert(entries_view(batch.targets@)[batch.next as int]
                == batch.targets@[batch.next as int]@);
            let ghost entry = batch.targets@[batch.next as int]@;
            let step = self.examine(kind, &batch.targets[batch.next], host);
            match step {
                Step::Skip => {
                    batch.next = batch.next + 1;
                    batch.launch = None;
                    proof {
                        let told = whole.skipped(kind, entry, host.now)->0;
                        assert(whole.skipped(kind, entry, host.now) is Some);
                        assert(told == (Model { batch: whole.batch, ..self@ }));
                        assert((Model { batch: Some(batch@), ..self@ }) == told.stepped());
                    }
                },
                Step::Shell(job) => {
                    let ghost reached = self@;
                    self.batch = Some(batch);
                    proof {
                        let command = job@.command;
                        assert(self@ == (Model { batch: Some(batch@), ..reached }));
                        assert(self@ == whole.with_status(
                            running_text(kind, entry.name, command),
                        ));
                    }
                    return Action::RunShell(job);
                },
                Step::Start(plan) => {
                    let ghost before = batch@;
                    batch.launch = Some(plan.clone());
                    self.batch = Some(batch);
                    proof {
                        assert(self@ == (Model {
                            batch: Some(BatchView { launch: Some(plan@), ..before }),
                            launches: next_serial(whole.launches),
                            ..whole
                        }));
                    }
                    return Action::Launch(plan);
                },
            }
        }
    }
}

impl App {
    /// Reports the outcome of the awaited external command for its target: a
    /// notification and a status line for success or failure.
    pub fn report(&mut self, outcome: &ProcessOutcome, now: u64)
        ensures
            final(self)@ == old(self)@.reported(outcome@, now),
            old(self).wf() ==> final(self).wf(),
    {
        let batch = match self.batch.take() {
            Some(batch) => batch,
            None => {
                return ;
            },
        };
        let ghost bare = self@;
        assert(old(self)@ == (Model { batch: Some(batch@), ..bare }));
        if batch.next < batch.targets.len() {
            assert(entries_view(batch.targets@)[batch.next as int]
                == batch.targets@[batch.next as int]@);
            let entry = &batch.targets[batch.next];
            let name = entry.name.as_str();
            match batch.kind {
                BatchKind::Launch => {
                    match &batch.launch {
                        Some(plan) => {
                            let place = plan.name.as_str();
                            match launch_result(plan.kind, place, outcome) {
                                Ok(_) => {
                                    self.log_at(opened(plan.kind, place), LogLevel::Info, now);
                                    self.set_status(launched(plan.kind, name, place));
                                },
                                Err(reason) => {
                                    self.log_at(
                                        error_note(reason.as_str()),
                                        LogLevel::Error,
                                        now,
                                    );
                                    self.set_status(launch_failed(name, reason.as_str()));
                                },
                            }
                        },
                        None => {},
                    }
                },
                kind => {
                    let commands = match kind {
                        BatchKind::Uninstall => &entry.uninstall,
                        _ => &entry.install,
                    };
                    let nothing = String::new();
                    let command = match command_for_platform(commands, self.platform) {
                        Some(command) => command,
                        None => nothing.as_str(),
                    };
                    match shell_result(command, outcome) {
                        Ok(_) => {
                            self.log_at(done(kind, name), LogLevel::Success, now);
                            self.set_status(done_status(kind, name));
                        },
                        Err(reason) => {
                            self.log_at(error_note(reason.as_str()), LogLevel::Error, now);
                            self.set_status(failed_status(kind, name, reason.as_str()));
                        },
                    }
                },
            }
        }
        let ghost told = self@;
        self.batch = Some(batch);
        assert(self@ == (Model { batch: Some(batch@), ..told }));
    }

    /// Moves the batch in flight on to its next target, with nothing awaited.
    pub fn step_batch(&mut self)
        ensures
            final(self)@ == old(self)@.stepped(),
            old(self).wf() ==> final(self).wf(),
    {
        let mut batch = match self.batch.take() {
            Some(batch) => batch,
            None => {
                return ;
            },
        };
        if batch.next < batch.targets.len() {
            batch.next = batch.next + 1;
        }
        batch.launch = None;
        self.batch = Some(batch);
    }

    /// Takes in the outcome of the external command that the last action asked
    /// for: reports it, moves the batch on and returns the next action. The
    /// failure of one target does not end the batch.
    pub fn process_finished(&mut self, outcome: &ProcessOutcome, host: Host) -> (action: Action)
        ensures
            (final(self)@, action@) == old(self)@.finished(outcome@, host),
            old(self).wf() ==> final(self).wf(),
    {
        self.report(outcome, host.now);
        self.step_batch();
        self.advance(host)
    }
}

/// Adding a converted entry to a list adds its content to the content of the list.
proof fn lemma_entries_push(list: Seq<AppEntry>, entry: AppEntry)
    ensures
        entries_view(list.push(entry)) == entries_view(list).push(entry@),
{
    assert(entries_view(list.push(entry)) =~= entries_view(list).push(entry@));
}

impl App {
    /// The targets among `targets` that an uninstall applies to, in order.
    fn qualifying_among(&self, targets: &Vec<AppEntry>) -> (chosen: Vec<AppEntry>)
        ensures
            entries_view(chosen@) == entries_view(targets@).filter(
                |e: EntryView| self@.qualifies(e),
            ),
    {
        let ghost keep = |e: EntryView| self@.qualifies(e);
        let ghost all = entries_view(targets@);
        let mut chosen: Vec<AppEntry> = Vec::new();
        let mut i: usize = 0;
        assert(all.take(0) =~= Seq::<EntryView>::empty());
        assert(entries_view(chosen@) =~= Seq::<EntryView>::empty());
        while i < targets.len()
            invariant
                i <= targets.len(),
                all == entries_view(targets@),
                keep == |e: EntryView| self@.qualifies(e),
                entries_view(chosen@) == all.take(i as int).filter(keep),
            decreases targets.len() - i,
        {
            let target = &targets[i];
            proof {
                let prefix = all.take(i as int);
                assert(all.take(i + 1) =~= prefix.push(target@));
                prefix.lemma_filter_push(target@, keep);
            }
            if self.is_installed(target) && command_for_platform(
                &target.uninstall,
                self.platform,
            ).is_some() {
                let copy = target.clone();
                proof {
                    lemma_entries_push(chosen@, copy);
                }
                chosen.push(copy);
            }
            i += 1;
        }
        assert(all.take(targets@.len() as int) =~= all);
        chosen
    }

    /// The names of the targets among `targets` that are not installed, in order.
    fn missing_among(&self, targets: &Vec<AppEntry>) -> (names: Vec<String>)
        ensures
            names@.map_values(|t: String| t@) == entries_view(targets@).filter(
                |e: EntryView| !self@.installed.contains(e.id),
            ).map_values(|e: EntryView| e.name),
    {
        let ghost keep = |e: EntryView| !self@.installed.contains(e.id);
        let ghost name_of = |e: EntryView| e.name;
        let ghost all = entries_view(targets@);
        let mut names: Vec<String> = Vec::new();
        let mut i: usize = 0;
        assert(all.take(0) =~= Seq::<EntryView>::empty());
        assert(names@.map_values(|t: String| t@) =~= all.take(0).filter(keep).map_values(name_of));
        while i < targets.len()
            invariant
                i <= targets.len(),
                all == entries_view(targets@),
                keep == |e: EntryView| !self@.installed.contains(e.id),
                name_of == |e: EntryView| e.name,
                names@.map_values(|t: String| t@) == all.take(i as int).filter(keep).map_values(
                    name_of,
                ),
            decreases targets.len() - i,
        {
            let target = &targets[i];
            let ghost listed = names@.map_values(|t: String| t@);
            proof {
                let prefix = all.take(i as int);
                assert(all.take(i + 1) =~= prefix.push(target@));
                prefix.lemma_filter_push(target@, keep);
            }
            if !self.is_installed(target) {
                let copy = target.name.clone();
                proof {
                    let kept = all.take(i as int).filter(keep);
                    assert(names@.push(copy).map_values(|t: String| t@) =~= listed.push(copy@));
                    assert(kept.push(target@).map_values(name_of) =~= kept.map_values(
                        name_of,
                    ).push(target@.name));
                }
                names.push(copy);
            }
            i += 1;
        }
        assert(all.take(targets@.len() as int) =~= all);
        names
    }

    /// Asks for the uninstall of the targets. A confirmation becomes pending only
    /// if some target is installed and has an uninstall command for the platform,
    /// and then for exactly those targets. Otherwise the status says whether the
    /// targets are not installed or have no command.
    pub fn request_uninstall(&mut self, now: u64)
        ensures
            final(self)@ == old(self)@.uninstall_requested(now),
            old(self)@.qualifying().len() == 0 ==> final(self)@.mode == old(self)@.mode
                && final(self)@.confirm == old(self)@.confirm,
            old(self)@.qualifying().len() > 0 && old(self)@.platform != Platform::Unknown ==> {
                &&& final(self)@.mode == Mode::ConfirmPending
                &&& final(self)@.confirm == Some(old(self)@.qualifying())
                &&& final(self)@.confirm_yes
            },
            old(self).wf() && old(self)@.mode == Mode::Normal && old(self)@.batch is None
                ==> final(self).wf(),
    {
        let targets = self.selected_entries();
        if targets.len() == 0 {
            self.set_status(nothing_selected(BatchKind::Uninstall));
            assert(old(self)@.targets().filter(|e: EntryView| old(self)@.qualifies(e)).len() == 0)
                by {
                old(self)@.targets().lemma_filter_len(|e: EntryView| old(self)@.qualifies(e));
            }
            return ;
        }
        if self.platform == Platform::Unknown {
            self.set_status(unknown_platform("uninstall"));
            return ;
        }
        let chosen = self.qualifying_among(&targets);
        if chosen.len() > 0 {
            self.mode = Mode::ConfirmPending;
            self.confirm_selected = true;
            self.confirm_action = Some(ConfirmAction::Uninstall(chosen));
            self.status = String::from_str("Press Enter to confirm uninstall, Esc to cancel.");
            return ;
        }
        let names = self.missing_among(&targets);
        if names.len() > 0 {
            let joined = join_with_commas(&names);
            self.set_status(not_installed_status(joined.as_str()));
            self.log_at(not_installed(joined.as_str()), LogLevel::Info, now);
        } else {
            self.set_status(
                String::from_str(
                    "No uninstall command defined for selected apps on this platform.",
                ),
            );
        }
    }

    /// Starts a batch over the given targets and works through it up to the
    /// first external command.
    fn start_batch(&mut self, kind: BatchKind, targets: Vec<AppEntry>, host: Host) -> (action:
        Action)
        requires
            old(self).batch is None,
        ensures
            (final(self)@, action@) == old(self)@.with_batch(kind, entries_view(targets@)).advance(
                host,
            ),
            old(self).wf() && old(self)@.mode == Mode::Normal ==> final(self).wf(),
    {
        self.batch = Some(Batch { kind, targets, next: 0, launch: None });
        self.advance(host)
    }

    /// Asks for the install of the targets.
    fn request_install(&mut self, host: Host) -> (action: Action)
        requires
            old(self).batch is None,
        ensures
            (final(self)@, action@) == old(self)@.install_requested(host),
            old(self).wf() && old(self)@.mode == Mode::Normal ==> final(self).wf(),
    {
        let targets = self.selected_entries();
        if targets.len() == 0 {
            self.set_status(nothing_selected(BatchKind::Install));
            return Action::Continue;
        }
        if self.platform == Platform::Unknown {
            self.set_status(unknown_platform("install"));
            return Action::Continue;
        }
        self.start_batch(BatchKind::Install, targets, host)
    }

    /// Asks for the launch of the targets. Without the multiplexer the whole
    /// batch is called off at once with a hint how to get it, on every platform.
    fn request_launch(&mut self, host: Host) -> (action: Action)
        requires
            old(self).batch is None,
        ensures
            (final(self)@, action@) == old(self)@.launch_requested(host),
            old(self).wf() && old(self)@.mode == Mode::Normal ==> final(self).wf(),
    {
        let targets = self.selected_entries();
        if targets.len() == 0 {
            self.set_status(String::from_str("No app selected or focused to launch."));
            return Action::Continue;
        }
        if !host.tmux_present {
            self.set_status(tmux_required(self.platform));
            return Action::Continue;
        }
        if self.platform == Platform::Unknown {
            self.set_status(unknown_platform("launch"));
            return Action::Continue;
        }
        self.start_batch(BatchKind::Launch, targets, host)
    }

    /// Asks for the launch of the entry under the cursor, whatever is selected.
    fn request_quick_launch(&mut self, host: Host) -> (action: Action)
        requires
            old(self).batch is None,
        ensures
            (final(self)@, action@) == old(self)@.quick_launch_requested(host),
            old(self).wf() && old(self)@.mode == Mode::Normal ==> final(self).wf(),
    {
        let entry = match self.current_entry() {
            Some(entry) => entry.clone(),
            None => {
                self.set_status(String::from_str("No app focused to launch."));
                return Action::Continue;
            },
        };
        if !host.tmux_present {
            self.set_status(tmux_required(self.platform));
            return Action::Continue;
        }
        if self.platform == Platform::Unknown {
            self.set_status(unknown_platform("launch"));
            return Action::Continue;
        }
        if !self.is_installed(&entry) {
            self.set_status(press_install(entry.name.as_str()));
            return Action::Continue;
        }
        let mut targets: Vec<AppEntry> = Vec::new();
        targets.push(entry);
        assert(entries_view(targets@) =~= seq![entry@]);
        self.start_batch(BatchKind::Launch, targets, host)
    }

    /// Commits the pending confirmation: with the affirmative answer the pending
    /// targets are uninstalled one after the other, with the negative one they
    /// are discarded.
    fn commit_confirmation(&mut self, host: Host) -> (action: Action)
        requires
            old(self).batch is None,
        ensures
            (final(self)@, action@) == old(self)@.confirm_committed(host),
            old(self).wf() ==> final(self).wf(),
    {
        let pending = self.confirm_action.take();
        self.mode = Mode::Normal;
        match pending {
            Some(ConfirmAction::Uninstall(targets)) => {
                if self.confirm_selected {
                    return self.start_batch(BatchKind::Uninstall, targets, host);
                }
            },
            None => {},
        }
        self.set_status(String::from_str("Uninstall cancelled."));
        Action::Continue
    }

    /// Calls the pending confirmation off.
    pub fn cancel_confirmation(&mut self)
        ensures
            final(self)@ == (Model {
                mode: Mode::Normal,
                confirm: None,
                ..old(self)@
            }).with_status(cancelled_text()),
            old(self).wf() && old(self)@.batch is None ==> final(self).wf(),
    {
        self.confirm_action = None;
        self.mode = Mode::Normal;
        self.set_status(String::from_str("Uninstall cancelled."));
    }

    /// Replaces the search query and recomputes the filter.
    pub fn set_query(&mut self, query: String)
        ensures
            final(self)@ == old(self)@.with_query(query@),
            old(self).wf() ==> final(self).wf(),
    {
        self.search_input = query;
        self.refresh_filter();
    }

    /// Applies an intent of the normal mode.
    fn apply_browsing(&mut self, intent: Intent, host: Host) -> (action: Action)
        requires
            old(self).batch is None,
            old(self).mode == Mode::Normal,
        ensures
            (final(self)@, action@) == old(self)@.applied(intent, host),
            old(self).wf() ==> final(self).wf(),
    {
        match intent {
            Intent::Quit => Action::Quit,
            Intent::MoveDown => {
                self.move_down();
                Action::Continue
            },
            Intent::MoveUp => {
                self.move_up();
                Action::Continue
            },
            Intent::NextTab => {
                cycle_tab_right(self);
                Action::Continue
            },
            Intent::PreviousTab => {
                cycle_tab_left(self);
                Action::Continue
            },
            Intent::CategoryLeft => {
                category_left(self);
                Action::Continue
            },
            Intent::CategoryRight => {
                category_right(self);
                Action::Continue
            },
            Intent::ToggleSelect => {
                self.toggle_selected_current();
                Action::Continue
            },
            Intent::ClearSelection => {
                self.clear_selection();
                Action::Continue
            },
            Intent::StartSearch => {
                self.committed_search = self.search_input.clone();
                self.mode = Mode::SearchEditing;
                Action::Continue
            },
            Intent::ClearSearch => {
                if !self.search_input.as_str().is_empty() {
                    self.set_query(String::new());
                    self.set_status(String::from_str("Search cleared."));
                }
                Action::Continue
            },
            Intent::QuickLaunch => self.request_quick_launch(host),
            Intent::Install => self.request_install(host),
            Intent::RequestUninstall => {
                self.request_uninstall(host.now);
                Action::Continue
            },
            Intent::Launch => self.request_launch(host),
            _ => Action::Continue,
        }
    }

    /// Applies an intent of the mode in which the search query is edited.
    fn apply_editing(&mut self, intent: Intent) -> (action: Action)
        requires
            old(self).batch is None,
            old(self).mode == Mode::SearchEditing,
        ensures
            action is Continue,
            forall|host: Host|
                (final(self)@, action@) == #[trigger] old(self)@.applied(intent, host),
            old(self).wf() ==> final(self).wf(),
    {
        match intent {
            Intent::SearchInput(c) => {
                let mut query = self.search_input.clone();
                query.push(c);
                self.set_query(query);
            },
            Intent::SearchBackspace => {
                let mut query = self.search_input.clone();
                query.pop();
                self.set_query(query);
            },
            Intent::SearchCommit => {
                self.committed_search = self.search_input.clone();
                self.mode = Mode::Normal;
                self.set_status(search_applied(self.search_input.as_str()));
            },
            Intent::SearchCancel => {
                self.set_query(self.committed_search.clone());
                self.mode = Mode::Normal;
            },
            _ => {},
        }
        Action::Continue
    }

    /// Applies an intent of the mode in which a confirmation is pending.
    fn apply_confirming(&mut self, intent: Intent, host: Host) -> (action: Action)
        requires
            old(self).batch is None,
            old(self).mode == Mode::ConfirmPending,
        ensures
            (final(self)@, action@) == old(self)@.applied(intent, host),
            old(self).wf() ==> final(self).wf(),
    {
        match intent {
            Intent::ChooseYes => {
                self.confirm_selected = true;
                Action::Continue
            },
            Intent::ChooseNo => {
                self.confirm_selected = false;
                Action::Continue
            },
            Intent::ConfirmCommit => self.commit_confirmation(host),
            Intent::ConfirmCancel => {
                self.cancel_confirmation();
                Action::Continue
            },
            _ => Action::Continue,
        }
    }

    /// Applies an intent to the state and says what the driver has to do next.
    /// While a batch is in flight, and for an intent that does not belong to
    /// the current mode, nothing happens.
    pub fn apply(&mut self, intent: Intent, host: Host) -> (action: Action)
        ensures
            (final(self)@, action@) == old(self)@.applied(intent, host),
            old(self).wf() ==> final(self).wf(),
    {
        if self.batch.is_some() {
            return Action::Continue;
        }
        match self.mode {
            Mode::Normal => self.apply_browsing(intent, host),
            Mode::SearchEditing => self.apply_editing(intent),
            Mode::ConfirmPending => self.apply_confirming(intent, host),
        }
    }

    /// Reads a key press in the current mode and applies its intent.
    pub fn press(&mut self, press: KeyPress, host: Host) -> (action: Action)
        ensures
            (final(self)@, action@) == old(self)@.pressed(press, host),
            old(self).wf() ==> final(self).wf(),
    {
        let intent = intent_for(self.mode, press);
        self.apply(intent, host)
    }
}

impl App {
    /// Carries out a due refresh of the installed state by probing the search
    /// path; any other action is handed on.
    fn settle(&mut self, action: Action) -> (next: Action)
        ensures
            exists|probes: Seq<bool>| (final(self)@, next@) == #[trigger] settled(
                (old(self)@, action@),
                probes,
            ),
            !(next is Refresh),
            old(self).wf() ==> final(self).wf(),
    {
        match action {
            Action::Refresh => {
                let probes = self.probe_binaries();
                self.set_installed(&probes);
                assert((self@, ActionView::Continue) == settled((old(self)@, action@), probes@));
                Action::Continue
            },
            other => {
                assert((self@, other@) == settled((old(self)@, action@), Seq::<bool>::empty()));
                other
            },
        }
    }

    /// Handles a key press: reads the clock, looks for the multiplexer where a
    /// launch is asked for, applies the key, and refreshes the installed state
    /// where a batch has come to its end. `in_tmux` says whether the process runs
    /// inside a multiplexer session. Where the system clock cannot be read, the
    /// Unix time counts as zero. Whatever the host answers, the new state and
    /// the action are those of the state machine for some such answers.
    pub fn handle_key(&mut self, press: KeyPress, in_tmux: bool) -> (action: Action)
        ensures
            exists|host: Host, probes: Seq<bool>|
                host.in_tmux == in_tmux && (final(self)@, action@) == #[trigger] settled(
                    old(self)@.pressed(press, host),
                    probes,
                ),
            !(action is Refresh),
            old(self).wf() ==> final(self).wf(),
    {
        let intent = intent_for(self.mode, press);
        let launching = match intent {
            Intent::Launch | Intent::QuickLaunch => true,
            _ => false,
        };
        let host = Host {
            now: elapsed_nanos(&self.started),
            tmux_present: launching && has_tmux(),
            in_tmux,
            timestamp: if launching {
                match unix_timestamp() {
                    Some(seconds) => seconds,
                    None => 0,
                }
            } else {
                0
            },
        };
        let action = self.apply(intent, host);
        let ghost reached = (self@, action@);
        let next = self.settle(action);
        proof {
            let probes = choose|probes: Seq<bool>| (self@, next@) == #[trigger] settled(
                reached,
                probes,
            );
            assert((self@, next@) == settled(old(self)@.pressed(press, host), probes));
        }
        next
    }

    /// Handles the end of the external command that the last action asked for:
    /// reports the outcome, moves the batch on, and refreshes the installed state
    /// where the batch has come to its end.
    pub fn handle_outcome(&mut self, outcome: &ProcessOutcome, in_tmux: bool) -> (action: Action)
        ensures
            exists|host: Host, probes: Seq<bool>|
                host.in_tmux == in_tmux && (final(self)@, action@) == #[trigger] settled(
                    old(self)@.finished(outcome@, host),
                    probes,
                ),
            !(action is Refresh),
            old(self).wf() ==> final(self).wf(),
    {
        let launching = match &self.batch {
            Some(batch) => batch.kind == BatchKind::Launch,
            None => false,
        };
        let host = Host {
            now: elapsed_nanos(&self.started),
            tmux_present: false,
            in_tmux,
            timestamp: if launching {
                match unix_timestamp() {
                    Some(seconds) => seconds,
                    None => 0,
                }
            } else {
                0
            },
        };
        let action = self.process_finished(outcome, host);
        let ghost reached = (self@, action@);
        let next = self.settle(action);
        proof {
            let probes = choose|probes: Seq<bool>| (self@, next@) == #[trigger] settled(
                reached,
                probes,
            );
            assert((self@, next@) == settled(old(self)@.finished(outcome@, host), probes));
        }
        next
    }
}

} // verus!
