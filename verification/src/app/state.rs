//! The application state and the operations of the list: filtering, cursor
//! movement, selection, the installed set and the notification log.

use vstd::prelude::*;
use vstd::string::*;
use crate::app::model::{
    categories_upto,
    fallback_category,
    ids_of,
    installed_from,
    installed_upto,
    is_category_list,
    is_live,
    lemma_sorted_distinct,
    Model,
    names_of,
    question_text,
    strictly_sorted,
};
use crate::app::report::{confirm_question, join_with_commas};
use crate::registry::model::{AppEntry, entries_view, EntryView, texts_view};
use crate::system::clock::elapsed_nanos;
use crate::system::exec::is_binary_installed;
use crate::system::os::Platform;
use crate::system::tmux::{LaunchPlan, LaunchView};
use crate::utils::text::{
    contains_chars,
    is_blank_str,
    lemma_text_lt_total,
    lemma_text_lt_transitive,
    lower_chars_of,
    same_text,
    same_text_ignore_case,
    text_lt,
    text_precedes,
};

verus! {

/// How long a notification stays visible, in nanoseconds.
pub const LOG_LIFETIME_NANOS: u64 = 3_000_000_000;

/// How many notifications the log keeps at most.
pub const LOG_CAPACITY: usize = 3;

/// The severity of a notification.
#[derive(Debug, Clone, Copy, PartialEq, Eq, Structural)]
pub enum LogLevel {
    Success,
    Error,
    Info,
}

/// One notification. `created_at` counts nanoseconds on the application's clock.
#[derive(Debug)]
pub struct LogEntry {
    pub message: String,
    pub level: LogLevel,
    pub created_at: u64,
}

/// The mathematical content of a [`LogEntry`].
pub ghost struct LogView {
    pub message: Seq<char>,
    pub level: LogLevel,
    pub created_at: u64,
}

impl View for LogEntry {
    type V = LogView;

    open spec fn view(&self) -> LogView {
        LogView { message: self.message@, level: self.level, created_at: self.created_at }
    }
}

impl Clone for LogEntry {
    fn clone(&self) -> (copy: Self)
        ensures
            copy@ == self@,
    {
        LogEntry { message: self.message.clone(), level: self.level, created_at: self.created_at }
    }
}

/// The contents of a list of notifications, in order.
pub open spec fn logs_view(logs: Seq<LogEntry>) -> Seq<LogView> {
    logs.map_values(|l: LogEntry| l@)
}

/// A destructive action that waits for the user's confirmation.
#[derive(Debug)]
pub enum ConfirmAction {
    /// Uninstall the given entries, in order.
    Uninstall(Vec<AppEntry>),
}

impl View for ConfirmAction {
    type V = Seq<EntryView>;

    /// The entries the pending action applies to.
    open spec fn view(&self) -> Seq<EntryView> {
        match self {
            ConfirmAction::Uninstall(targets) => entries_view(targets@),
        }
    }
}

/// The top-level view filter.
#[derive(Debug, Clone, Copy, PartialEq, Eq, Structural)]
pub enum Tab {
    All,
    Installed,
    Categories,
}

/// The state of the input state machine.
#[derive(Debug, Clone, Copy, PartialEq, Eq, Structural)]
pub enum Mode {
    Normal,
    SearchEditing,
    ConfirmPending,
}

/// What a batch of external commands does to its targets.
#[derive(Debug, Clone, Copy, PartialEq, Eq, Structural)]
pub enum BatchKind {
    Install,
    Uninstall,
    Launch,
}

/// A batch of external commands in flight: the targets in processing order, the
/// position of the target whose command is running, and, for a launch, the plan
/// that is being carried out.
#[derive(Debug)]
pub struct Batch {
    pub kind: BatchKind,
    pub targets: Vec<AppEntry>,
    pub next: usize,
    pub launch: Option<LaunchPlan>,
}

/// The mathematical content of a [`Batch`].
pub ghost struct BatchView {
    pub kind: BatchKind,
    pub targets: Seq<EntryView>,
    pub next: nat,
    pub launch: Option<LaunchView>,
}

impl View for Batch {
    type V = BatchView;

    open spec fn view(&self) -> BatchView {
        BatchView {
            kind: self.kind,
            targets: entries_view(self.targets@),
            next: self.next as nat,
            launch: match self.launch {
                Some(plan) => Some(plan@),
                None => None,
            },
        }
    }
}

/// The ids held by a list of strings, as a set.
pub open spec fn id_set(ids: Seq<String>) -> Set<Seq<char>> {
    texts_view(ids).to_set()
}

/// The application state. `launches` counts the launches planned so far, and
/// `started` is the origin of the clock that dates the notifications.
pub struct App {
    pub entries: Vec<AppEntry>,
    pub installed_ids: Vec<String>,
    pub selected_tab: Tab,
    pub categories: Vec<String>,
    pub selected_category: usize,
    pub filtered_indices: Vec<usize>,
    pub cursor: Option<usize>,
    pub selected_ids: Vec<String>,
    pub mode: Mode,
    pub search_input: String,
    pub committed_search: String,
    pub status: String,
    pub platform: Platform,
    pub confirm_action: Option<ConfirmAction>,
    pub confirm_selected: bool,
    pub logs: Vec<LogEntry>,
    pub batch: Option<Batch>,
    pub launches: u64,
    pub started: std::time::Instant,
}

impl View for App {
    type V = Model;

    open spec fn view(&self) -> Model {
        Model {
            entries: entries_view(self.entries@),
            installed: id_set(self.installed_ids@),
            tab: self.selected_tab,
            categories: texts_view(self.categories@),
            category: self.selected_category,
            filtered: self.filtered_indices@,
            cursor: self.cursor,
            selected: id_set(self.selected_ids@),
            mode: self.mode,
            query: self.search_input@,
            committed_query: self.committed_search@,
            status: self.status@,
            platform: self.platform,
            confirm: match self.confirm_action {
                Some(action) => Some(action@),
                None => None,
            },
            confirm_yes: self.confirm_selected,
            logs: logs_view(self.logs@),
            batch: match self.batch {
                Some(batch) => Some(batch@),
                None => None,
            },
            launches: self.launches,
            started: self.started,
        }
    }
}

/// Whether a list of ids holds the given one.
pub fn holds_id(ids: &Vec<String>, id: &str) -> (found: bool)
    ensures
        found == id_set(ids@).contains(id@),
{
    let mut i: usize = 0;
    while i < ids.len()
        invariant
            i <= ids.len(),
            forall|k: int| 0 <= k < i ==> ids@[k]@ != id@,
        decreases ids.len() - i,
    {
        if same_text(ids[i].as_str(), id) {
            assert(texts_view(ids@)[i as int] == id@);
            return true;
        }
        i += 1;
    }
    assert forall|k: int| 0 <= k < texts_view(ids@).len() implies texts_view(ids@)[k] != id@ by {
        assert(texts_view(ids@)[k] == ids@[k]@);
    }
    false
}

impl App {
    /// Whether neither list of ids repeats an id.
    pub open spec fn ids_unique(&self) -> bool {
        &&& texts_view(self.installed_ids@).no_duplicates()
        &&& texts_view(self.selected_ids@).no_duplicates()
    }

    /// Whether the state is well formed: the model invariant holds and neither
    /// list of ids repeats an id.
    pub open spec fn wf(&self) -> bool {
        &&& self@.inv()
        &&& self.ids_unique()
    }

    /// Whether the installed set holds the id of an entry.
    pub fn is_installed(&self, entry: &AppEntry) -> (installed: bool)
        ensures
            installed == self@.installed.contains(entry@.id),
    {
        holds_id(&self.installed_ids, entry.id.as_str())
    }

    /// Whether an entry passes the active tab: always on the tab of all entries,
    /// if installed on the tab of installed ones, and if its category equals the
    /// selected one up to ASCII case on the category tab.
    pub fn matches_tab(&self, entry: &AppEntry) -> (shown: bool)
        ensures
            shown == self@.matches_tab(entry@),
    {
        match self.selected_tab {
            Tab::All => true,
            Tab::Installed => self.is_installed(entry),
            Tab::Categories => {
                if self.selected_category < self.categories.len() {
                    assert(texts_view(self.categories@)[self.selected_category as int]
                        == self.categories@[self.selected_category as int]@);
                    same_text_ignore_case(
                        entry.category.as_str(),
                        self.categories[self.selected_category].as_str(),
                    )
                } else {
                    true
                }
            },
        }
    }

    /// Whether an entry passes the search query: a blank query passes everything,
    /// any other must occur, up to ASCII case, in the name, the description, the
    /// category or the id.
    pub fn matches_search(&self, entry: &AppEntry) -> (shown: bool)
        ensures
            shown == self@.matches_search(entry@),
    {
        if is_blank_str(self.search_input.as_str()) {
            return true;
        }
        let needle = lower_chars_of(self.search_input.as_str());
        contains_chars(&lower_chars_of(entry.name.as_str()), &needle) || contains_chars(
            &lower_chars_of(entry.description.as_str()),
            &needle,
        ) || contains_chars(&lower_chars_of(entry.category.as_str()), &needle) || contains_chars(
            &lower_chars_of(entry.id.as_str()),
            &needle,
        )
    }

    /// The entry under the cursor, if the cursor points at a row of the list.
    pub fn current_entry(&self) -> (entry: Option<&AppEntry>)
        ensures
            match entry {
                Some(e) => self@.current() == Some(e@),
                None => self@.current() is None,
            },
    {
        match self.cursor {
            Some(row) => {
                if row < self.filtered_indices.len() {
                    let index = self.filtered_indices[row];
                    if index < self.entries.len() {
                        Some(&self.entries[index])
                    } else {
                        None
                    }
                } else {
                    None
                }
            },
            None => None,
        }
    }

    /// Moves the cursor one row down, wrapping to the first row. On an empty list
    /// the cursor is cleared.
    pub fn move_down(&mut self)
        ensures
            final(self)@ == old(self)@.moved_down(),
            old(self).wf() ==> final(self).wf(),
            final(self)@.filtered.len() > 0 ==> final(self)@.cursor_fits(),
    {
        let len = self.filtered_indices.len();
        if len == 0 {
            self.cursor = None;
            return ;
        }
        let next: usize = match self.cursor {
            Some(row) if row < len - 1 => row + 1,
            _ => 0,
        };
        self.cursor = Some(next);
    }

    /// Moves the cursor one row up, wrapping to the last row. On an empty list the
    /// cursor is cleared.
    pub fn move_up(&mut self)
        ensures
            final(self)@ == old(self)@.moved_up(),
            old(self).wf() ==> final(self).wf(),
    {
        let len = self.filtered_indices.len();
        if len == 0 {
            self.cursor = None;
            return ;
        }
        let previous: usize = match self.cursor {
            Some(row) if row > 0 => row - 1,
            _ => len - 1,
        };
        self.cursor = Some(previous);
    }

    /// Replaces the status line.
    pub fn set_status(&mut self, message: String)
        ensures
            final(self)@ == old(self)@.with_status(message@),
            old(self).wf() ==> final(self).wf(),
    {
        self.status = message;
    }
}

impl App {
    /// The positions of the entries that pass the tab and the search, ascending.
    fn compute_visible(&self) -> (found: Vec<usize>)
        ensures
            found@ == self@.visible(),
    {
        let mut found: Vec<usize> = Vec::new();
        let mut i: usize = 0;
        while i < self.entries.len()
            invariant
                i <= self.entries.len(),
                found@ == self@.scope().visible_upto(i as nat),
            decreases self.entries.len() - i,
        {
            assert(entries_view(self.entries@)[i as int] == self.entries@[i as int]@);
            if self.matches_tab(&self.entries[i]) && self.matches_search(&self.entries[i]) {
                found.push(i);
            }
            i += 1;
        }
        found
    }

    /// Recomputes the filtered list from the tab, the category and the search
    /// query, then repairs the cursor.
    pub fn refresh_filter(&mut self)
        ensures
            final(self)@ == old(self)@.refiltered(),
            final(self)@.filtered == final(self)@.visible(),
            final(self)@.cursor_fits(),
            forall|k: int|
                0 <= k < final(self)@.filtered.len() ==> final(self)@.scope().shows(
                    (#[trigger] final(self)@.filtered[k]) as int,
                ),
            forall|j: int, k: int|
                0 <= j < k < final(self)@.filtered.len() ==> (#[trigger] final(self)@.filtered[j])
                    < (#[trigger] final(self)@.filtered[k]),
            forall|i: int|
                final(self)@.scope().shows(i) ==> exists|k: int|
                    0 <= k < final(self)@.filtered.len() && #[trigger] final(self)@.filtered[k]
                        == i,
            old(self)@.steady() ==> final(self)@.inv(),
            old(self).ids_unique() ==> final(self).ids_unique(),
    {
        let found = self.compute_visible();
        let len = found.len();
        let cursor = match self.cursor {
            Some(row) if row < len => Some(row),
            _ => if len == 0 {
                None
            } else {
                Some(0)
            },
        };
        let total = self.entries.len();
        self.filtered_indices = found;
        self.cursor = cursor;
        proof {
            assert(self@.entries.len() == total);
            old(self)@.lemma_refiltered();
            old(self)@.lemma_filter_exact();
            assert(self@.scope() == old(self)@.scope());
        }
    }

    /// Empties the selection; cursor and filter stay as they are.
    pub fn clear_selection(&mut self)
        ensures
            final(self)@ == (Model { selected: Set::empty(), ..old(self)@ }),
            old(self).wf() ==> final(self).wf(),
    {
        self.selected_ids = Vec::new();
        assert(id_set(self.selected_ids@) =~= Set::<Seq<char>>::empty());
    }
}

/// Adding an id to the end of a list adds it to the set of ids.
pub proof fn lemma_id_set_push(ids: Seq<String>, id: String)
    ensures
        id_set(ids.push(id)) == id_set(ids).insert(id@),
        texts_view(ids.push(id)) == texts_view(ids).push(id@),
{
    let grown = texts_view(ids.push(id));
    let base = texts_view(ids);
    assert(grown =~= base.push(id@));
    assert forall|t: Seq<char>| grown.contains(t) <==> (base.contains(t) || t == id@) by {
        if base.contains(t) {
            let k = choose|k: int| 0 <= k < base.len() && base[k] == t;
            assert(grown[k] == t);
        }
        if t == id@ {
            assert(grown[base.len() as int] == t);
        }
    }
    assert(id_set(ids.push(id)) =~= id_set(ids).insert(id@));
}

/// A list of ids without every occurrence of one of them.
pub fn without_id(ids: &Vec<String>, id: &str) -> (rest: Vec<String>)
    ensures
        id_set(rest@) == id_set(ids@).remove(id@),
        texts_view(ids@).no_duplicates() ==> texts_view(rest@).no_duplicates(),
{
    let mut rest: Vec<String> = Vec::new();
    let ghost mut origin: Seq<int> = Seq::empty();
    let mut i: usize = 0;
    while i < ids.len()
        invariant
            i <= ids.len(),
            origin.len() == rest@.len(),
            forall|k: int| 0 <= k < rest@.len() ==> 0 <= #[trigger] origin[k] < i,
            forall|k: int| 0 <= k < rest@.len() ==> (#[trigger] rest@[k])@ == ids@[origin[k]]@,
            forall|k: int| 0 <= k < rest@.len() ==> (#[trigger] rest@[k])@ != id@,
            forall|j: int, k: int| 0 <= j < k < rest@.len() ==> origin[j] < origin[k],
            forall|j: int|
                0 <= j < i && ids@[j]@ != id@ ==> exists|k: int|
                    0 <= k < rest@.len() && origin[k] == j,
        decreases ids.len() - i,
    {
        if !same_text(ids[i].as_str(), id) {
            let ghost before = rest@;
            let ghost before_origin = origin;
            rest.push(ids[i].clone());
            proof {
                origin = origin.push(i as int);
                assert forall|j: int| 0 <= j < i + 1 && ids@[j]@ != id@ implies exists|k: int|
                    0 <= k < rest@.len() && origin[k] == j by {
                    if j < i {
                        let k = choose|k: int| 0 <= k < before.len() && before_origin[k] == j;
                        assert(origin[k] == j);
                    } else {
                        assert(origin[before.len() as int] == j);
                    }
                }
            }
        }
        i += 1;
    }
    proof {
        let all = texts_view(ids@);
        let left = texts_view(rest@);
        assert forall|t: Seq<char>| left.contains(t) <==> (all.contains(t) && t != id@) by {
            if left.contains(t) {
                let k = choose|k: int| 0 <= k < left.len() && left[k] == t;
                assert(left[k] == rest@[k]@);
                assert(all[origin[k]] == ids@[origin[k]]@);
            }
            if all.contains(t) && t != id@ {
                let j = choose|j: int| 0 <= j < all.len() && all[j] == t;
                assert(all[j] == ids@[j]@);
                let k = choose|k: int| 0 <= k < rest@.len() && origin[k] == j;
                assert(left[k] == rest@[k]@);
            }
        }
        assert(id_set(rest@) =~= id_set(ids@).remove(id@));
        if all.no_duplicates() {
            assert forall|j: int, k: int|
                0 <= j < left.len() && 0 <= k < left.len() && j != k implies left[j] != left[k] by {
                assert(left[j] == all[origin[j]]);
                assert(left[k] == all[origin[k]]);
                if j < k {
                    assert(origin[j] < origin[k]);
                } else {
                    assert(origin[k] < origin[j]);
                }
            }
        }
    }
    rest
}

impl App {
    /// Flips the membership of the entry under the cursor in the selection.
    pub fn toggle_selected_current(&mut self)
        ensures
            final(self)@ == old(self)@.toggled(),
            old(self).wf() ==> final(self).wf(),
    {
        let id = match self.current_entry() {
            Some(entry) => entry.id.clone(),
            None => {
                return ;
            },
        };
        let ghost entry = old(self)@.current()->0;
        assert(id@ == entry.id);
        assert(ids_of(self@.entries).contains(id@)) by {
            let row = self.cursor->0;
            let index = self.filtered_indices@[row as int] as int;
            assert(self@.entries[index].id == id@);
        }
        if holds_id(&self.selected_ids, id.as_str()) {
            let rest = without_id(&self.selected_ids, id.as_str());
            self.selected_ids = rest;
        } else {
            proof {
                lemma_id_set_push(self.selected_ids@, id);
                let base = texts_view(self.selected_ids@);
                if base.no_duplicates() {
                    assert(base.push(id@).no_duplicates()) by {
                        assert forall|k: int| 0 <= k < base.len() implies base[k] != id@ by {
                            if base[k] == id@ {
                                assert(base.contains(id@));
                            }
                        }
                    }
                }
            }
            self.selected_ids.push(id);
        }
    }

    /// The entries an action applies to: those explicitly selected, in catalog
    /// order, or else the entry under the cursor.
    pub fn selected_entries(&self) -> (targets: Vec<AppEntry>)
        ensures
            entries_view(targets@) == self@.targets(),
            self@.chosen().len() > 0 ==> entries_view(targets@) == self@.chosen(),
            self@.chosen().len() == 0 ==> entries_view(targets@) == match self@.current() {
                Some(entry) => seq![entry],
                None => Seq::empty(),
            },
            targets@.len() == 0 <==> (self@.chosen().len() == 0 && self@.current() is None),
    {
        let ghost keep = |e: EntryView| self@.selected.contains(e.id);
        let mut results: Vec<AppEntry> = Vec::new();
        let mut i: usize = 0;
        assert(self@.entries.take(0) =~= Seq::<EntryView>::empty());
        while i < self.entries.len()
            invariant
                i <= self.entries.len(),
                keep == |e: EntryView| self@.selected.contains(e.id),
                entries_view(results@) == self@.entries.take(i as int).filter(keep),
            decreases self.entries.len() - i,
        {
            proof {
                let prefix = self@.entries.take(i as int);
                let entry = self.entries@[i as int]@;
                assert(self@.entries.take(i + 1) =~= prefix.push(entry));
                prefix.lemma_filter_push(entry, keep);
                assert(entries_view(results@.push(self.entries@[i as int])) =~= entries_view(
                    results@,
                ).push(entry));
            }
            if holds_id(&self.selected_ids, self.entries[i].id.as_str()) {
                let copy = self.entries[i].clone();
                proof {
                    assert(entries_view(results@.push(copy)) =~= entries_view(results@).push(
                        copy@,
                    ));
                }
                results.push(copy);
            }
            i += 1;
        }
        assert(self@.entries.take(self.entries@.len() as int) =~= self@.entries);
        if results.len() == 0 {
            match self.current_entry() {
                Some(entry) => {
                    let copy = entry.clone();
                    results.push(copy);
                    assert(entries_view(results@) =~= seq![copy@]);
                },
                None => {
                    assert(entries_view(results@) =~= Seq::<EntryView>::empty());
                },
            }
        }
        results
    }
}

/// Whether a notification made at `created_at` is still to be shown at `now`.
pub fn still_live(created_at: u64, now: u64) -> (live: bool)
    ensures
        live == is_live(created_at, now),
{
    now < created_at || now - created_at < LOG_LIFETIME_NANOS
}

/// The notifications of a list that are still to be shown at `now`, oldest first.
pub fn live_entries(logs: &Vec<LogEntry>, now: u64) -> (kept: Vec<LogEntry>)
    ensures
        logs_view(kept@) == logs_view(logs@).filter(|l: LogView| is_live(l.created_at, now)),
        kept@.len() <= logs@.len(),
        forall|k: int| 0 <= k < kept@.len() ==> is_live((#[trigger] kept@[k]).created_at, now),
{
    let ghost keep = |l: LogView| is_live(l.created_at, now);
    let mut kept: Vec<LogEntry> = Vec::new();
    let mut i: usize = 0;
    assert(logs_view(logs@).take(0) =~= Seq::<LogView>::empty());
    while i < logs.len()
        invariant
            i <= logs.len(),
            keep == |l: LogView| is_live(l.created_at, now),
            logs_view(kept@) == logs_view(logs@).take(i as int).filter(keep),
            kept@.len() <= i,
            forall|k: int| 0 <= k < kept@.len() ==> is_live((#[trigger] kept@[k]).created_at, now),
        decreases logs.len() - i,
    {
        proof {
            let prefix = logs_view(logs@).take(i as int);
            let entry = logs@[i as int]@;
            assert(logs_view(logs@).take(i + 1) =~= prefix.push(entry));
            prefix.lemma_filter_push(entry, keep);
        }
        if still_live(logs[i].created_at, now) {
            let copy = logs[i].clone();
            assert(logs_view(kept@.push(copy)) =~= logs_view(kept@).push(copy@));
            kept.push(copy);
        }
        i += 1;
    }
    assert(logs_view(logs@).take(logs@.len() as int) =~= logs_view(logs@));
    kept
}

impl App {
    /// Adds a notification dated `now`, after dropping the expired ones; the
    /// oldest gives way if the log would exceed its capacity.
    pub fn log_at(&mut self, message: String, level: LogLevel, now: u64)
        ensures
            final(self)@ == old(self)@.logged(message@, level, now),
            old(self)@.logs.len() <= LOG_CAPACITY ==> final(self)@.logs.len() <= LOG_CAPACITY,
            final(self)@.logs.len() > 0,
            final(self)@.logs.last() == (LogView { message: message@, level, created_at: now }),
            old(self).wf() ==> final(self).wf(),
    {
        let mut kept = live_entries(&self.logs, now);
        let entry = LogEntry { message, level, created_at: now };
        proof {
            assert(logs_view(kept@.push(entry)) =~= logs_view(kept@).push(entry@));
        }
        kept.push(entry);
        if kept.len() > LOG_CAPACITY {
            let ghost grown = kept@;
            kept.remove(0);
            assert(logs_view(kept@) =~= logs_view(grown).drop_first());
        }
        self.logs = kept;
    }

    /// Adds a notification dated by the application's clock.
    pub fn log(&mut self, message: String, level: LogLevel)
        ensures
            exists|now: u64| final(self)@ == #[trigger] old(self)@.logged(message@, level, now),
            old(self)@.logs.len() <= LOG_CAPACITY ==> final(self)@.logs.len() <= LOG_CAPACITY,
            old(self).wf() ==> final(self).wf(),
    {
        let now = elapsed_nanos(&self.started);
        self.log_at(message, level, now);
    }

    /// Drops the notifications that have expired at `now`.
    pub fn prune_logs_at(&mut self, now: u64)
        ensures
            final(self)@ == old(self)@.pruned(now),
            final(self)@.logs.len() <= old(self)@.logs.len(),
            forall|k: int|
                0 <= k < final(self)@.logs.len() ==> is_live(
                    (#[trigger] final(self)@.logs[k]).created_at,
                    now,
                ),
            old(self).wf() ==> final(self).wf(),
    {
        let kept = live_entries(&self.logs, now);
        self.logs = kept;
    }

    /// Drops the notifications that have expired by the application's clock.
    pub fn prune_logs(&mut self)
        ensures
            exists|now: u64| final(self)@ == #[trigger] old(self)@.pruned(now),
            final(self)@.logs.len() <= old(self)@.logs.len(),
            old(self).wf() ==> final(self).wf(),
    {
        let now = elapsed_nanos(&self.started);
        self.prune_logs_at(now);
    }
}

/// The installed set for a catalog and the outcome of probing each entry's
/// binary: the ids of the entries whose probe succeeded, each once.
pub fn installed_ids_from(entries: &Vec<AppEntry>, probes: &Vec<bool>) -> (ids: Vec<String>)
    ensures
        id_set(ids@) == installed_from(entries_view(entries@), probes@),
        texts_view(ids@).no_duplicates(),
        id_set(ids@).subset_of(ids_of(entries_view(entries@))),
{
    let ghost catalog = entries_view(entries@);
    let mut ids: Vec<String> = Vec::new();
    let mut i: usize = 0;
    assert(id_set(ids@) =~= installed_upto(catalog, probes@, 0));
    while i < entries.len()
        invariant
            i <= entries.len(),
            catalog == entries_view(entries@),
            id_set(ids@) == installed_upto(catalog, probes@, i as int),
            texts_view(ids@).no_duplicates(),
        decreases entries.len() - i,
    {
        let ghost before = id_set(ids@);
        let ghost id = catalog[i as int].id;
        assert(id == entries@[i as int].id@);
        if i < probes.len() && probes[i] {
            if !holds_id(&ids, entries[i].id.as_str()) {
                let copy = entries[i].id.clone();
                proof {
                    lemma_id_set_push(ids@, copy);
                    let base = texts_view(ids@);
                    assert forall|k: int| 0 <= k < base.len() implies base[k] != id by {
                        if base[k] == id {
                            assert(base.contains(id));
                        }
                    }
                }
                ids.push(copy);
            }
            assert(id_set(ids@) =~= before.insert(id));
            assert(before.insert(id) =~= installed_upto(catalog, probes@, i + 1));
        } else {
            assert(before =~= installed_upto(catalog, probes@, i + 1));
        }
        i += 1;
    }
    assert(installed_from(catalog, probes@).subset_of(ids_of(catalog)));
    ids
}

impl App {
    /// Replaces the installed set by the one the probes give, one probe per
    /// catalog entry, and recomputes the filter.
    pub fn set_installed(&mut self, probes: &Vec<bool>)
        ensures
            final(self)@ == old(self)@.with_probes(probes@),
            final(self)@.installed == installed_from(old(self)@.entries, probes@),
            old(self)@.steady() ==> final(self)@.inv(),
            old(self).ids_unique() ==> final(self).ids_unique(),
    {
        let ids = installed_ids_from(&self.entries, probes);
        self.installed_ids = ids;
        self.refresh_filter();
    }

    /// Probes the search path for the binary of every entry, in catalog order.
    pub fn probe_binaries(&self) -> (probes: Vec<bool>)
        ensures
            probes@.len() == self.entries@.len(),
    {
        let mut probes: Vec<bool> = Vec::new();
        let mut i: usize = 0;
        while i < self.entries.len()
            invariant
                i <= self.entries.len(),
                probes@.len() == i,
            decreases self.entries.len() - i,
        {
            probes.push(is_binary_installed(self.entries[i].binary.as_str()));
            i += 1;
        }
        probes
    }

    /// Rebuilds the installed set by probing every entry's binary and recomputes
    /// the filter. Whatever the probes answer, the new state is the one that
    /// [`App::set_installed`] gives for them.
    pub fn refresh_installed_cache(&mut self)
        ensures
            exists|probes: Seq<bool>|
                probes.len() == old(self)@.entries.len() && final(self)@
                    == #[trigger] old(self)@.with_probes(probes),
            old(self)@.steady() ==> final(self)@.inv(),
            old(self).ids_unique() ==> final(self).ids_unique(),
    {
        let probes = self.probe_binaries();
        self.set_installed(&probes);
        assert(self@ == old(self)@.with_probes(probes@));
    }
}

/// Puts a category into an ascending list, unless the list holds it already.
fn insert_category(categories: &mut Vec<String>, category: &str)
    requires
        strictly_sorted(texts_view(old(categories)@)),
    ensures
        strictly_sorted(texts_view(final(categories)@)),
        texts_view(final(categories)@).to_set() == texts_view(old(categories)@).to_set().insert(
            category@,
        ),
{
    let ghost before = texts_view(categories@);
    let mut at: usize = 0;
    while at < categories.len() && text_precedes(categories[at].as_str(), category)
        invariant
            at <= categories.len(),
            before == texts_view(categories@),
            forall|k: int| 0 <= k < at ==> text_lt(#[trigger] before[k], category@),
        decreases categories.len() - at,
    {
        assert(before[at as int] == categories@[at as int]@);
        at += 1;
    }
    if at < categories.len() {
        assert(before[at as int] == categories@[at as int]@);
        if same_text(categories[at].as_str(), category) {
            assert(before.to_set().insert(category@) =~= before.to_set()) by {
                assert(before.contains(category@));
            }
            return ;
        }
    }
    let copy = String::from_str(category);
    categories.insert(at, copy);
    proof {
        let after = texts_view(categories@);
        assert(after =~= before.insert(at as int, category@));
        assert forall|k: int| at <= k < before.len() implies text_lt(
            category@,
            #[trigger] before[k],
        ) by {
            lemma_text_lt_total(before[at as int], category@);
            if k > at {
                lemma_text_lt_transitive(
                    category@,
                    before[at as int],
                    before[k],
                );
            }
        }
        assert forall|i: int, j: int| 0 <= i < j < after.len() implies text_lt(
            #[trigger] after[i],
            #[trigger] after[j],
        ) by {
            if j < at {
                assert(after[i] == before[i] && after[j] == before[j]);
            } else if j == at {
                assert(after[i] == before[i]);
            } else if i < at {
                assert(after[i] == before[i] && after[j] == before[j - 1]);
                lemma_text_lt_transitive(after[i], category@, after[j]);
            } else if i == at {
                assert(after[j] == before[j - 1]);
            } else {
                assert(after[i] == before[i - 1] && after[j] == before[j - 1]);
            }
        }
        assert forall|t: Seq<char>| after.contains(t) <==> (before.contains(t) || t
            == category@) by {
            if after.contains(t) {
                let k = choose|k: int| 0 <= k < after.len() && after[k] == t;
                if k < at {
                    assert(before[k] == t);
                } else if k > at {
                    assert(before[k - 1] == t);
                }
            }
            if before.contains(t) {
                let k = choose|k: int| 0 <= k < before.len() && before[k] == t;
                if k < at {
                    assert(after[k] == t);
                } else {
                    assert(after[k + 1] == t);
                }
            }
            if t == category@ {
                assert(after[at as int] == t);
            }
        }
        assert(after.to_set() =~= before.to_set().insert(category@));
    }
}

/// The category list of a catalog: the distinct categories in ascending order,
/// or the fallback category alone if the catalog is empty.
pub fn catalog_categories(entries: &Vec<AppEntry>) -> (categories: Vec<String>)
    ensures
        is_category_list(texts_view(categories@), entries_view(entries@)),
        texts_view(categories@).no_duplicates(),
        categories@.len() > 0,
{
    let ghost catalog = entries_view(entries@);
    let mut categories: Vec<String> = Vec::new();
    if entries.len() == 0 {
        categories.push(String::from_str("uncategorized"));
        assert(texts_view(categories@) =~= seq![fallback_category()]);
        return categories;
    }
    let mut i: usize = 0;
    assert(texts_view(categories@).to_set() =~= categories_upto(catalog, 0));
    while i < entries.len()
        invariant
            i <= entries.len(),
            catalog == entries_view(entries@),
            strictly_sorted(texts_view(categories@)),
            texts_view(categories@).to_set() == categories_upto(catalog, i as int),
        decreases entries.len() - i,
    {
        assert(catalog[i as int].category == entries@[i as int].category@);
        insert_category(&mut categories, entries[i].category.as_str());
        assert(categories_upto(catalog, i as int).insert(catalog[i as int].category)
            =~= categories_upto(catalog, i + 1));
        i += 1;
    }
    proof {
        let listed = texts_view(categories@);
        assert(categories_upto(catalog, catalog.len() as int).contains(catalog[0].category));
        assert(listed.to_set().contains(catalog[0].category));
        assert(listed.contains(catalog[0].category));
        lemma_sorted_distinct(listed);
    }
    categories
}

impl App {
    /// A fresh application over a catalog for the given platform, with the
    /// installed set given by the probes and the filter computed.
    pub fn from_probes(entries: Vec<AppEntry>, platform: Platform, probes: &Vec<bool>) -> (app:
        App)
        ensures
            app.wf(),
            is_category_list(app@.categories, entries_view(entries@)),
            app@ == Model::fresh(
                entries_view(entries@),
                app@.categories,
                platform,
                app@.started,
            ).with_probes(probes@),
    {
        let categories = catalog_categories(&entries);
        let mut app = App {
            entries,
            installed_ids: Vec::new(),
            selected_tab: Tab::All,
            categories,
            selected_category: 0,
            filtered_indices: Vec::new(),
            cursor: None,
            selected_ids: Vec::new(),
            mode: Mode::Normal,
            search_input: String::new(),
            committed_search: String::new(),
            status: String::from_str(
                "Ready. Navigate with arrows/jk. Space select, I install, L launch, / search.",
            ),
            platform,
            confirm_action: None,
            confirm_selected: false,
            logs: Vec::new(),
            batch: None,
            launches: 0,
            started: std::time::Instant::now(),
        };
        proof {
            assert(id_set(app.installed_ids@) =~= Set::<Seq<char>>::empty());
            assert(id_set(app.selected_ids@) =~= Set::<Seq<char>>::empty());
            assert(logs_view(app.logs@) =~= Seq::<LogView>::empty());
            assert(app@ == Model::fresh(
                entries_view(entries@),
                app@.categories,
                platform,
                app@.started,
            ));
        }
        app.set_installed(probes);
        app
    }

    /// A fresh application over a catalog for the given platform. The installed
    /// set is probed from the search path and the filter is computed, so the
    /// state is well formed from the start.
    pub fn new(entries: Vec<AppEntry>, platform: Platform) -> (app: App)
        ensures
            app.wf(),
            is_category_list(app@.categories, entries_view(entries@)),
            exists|probes: Seq<bool>|
                probes.len() == entries@.len() && app@ == #[trigger] Model::fresh(
                    entries_view(entries@),
                    app@.categories,
                    platform,
                    app@.started,
                ).with_probes(probes),
    {
        let mut probes: Vec<bool> = Vec::new();
        let mut i: usize = 0;
        while i < entries.len()
            invariant
                i <= entries.len(),
                probes@.len() == i,
            decreases entries.len() - i,
        {
            probes.push(is_binary_installed(entries[i].binary.as_str()));
            i += 1;
        }
        let app = App::from_probes(entries, platform, &probes);
        assert(app@ == Model::fresh(
            entries_view(entries@),
            app@.categories,
            platform,
            app@.started,
        ).with_probes(probes@));
        app
    }
}

impl App {
    /// The question that the confirmation dialog shows.
    pub fn confirm_question(&self) -> (question: String)
        ensures
            question@ == question_text(self@.confirm),
    {
        match &self.confirm_action {
            Some(ConfirmAction::Uninstall(targets)) => {
                let ghost all = entries_view(targets@);
                let mut names: Vec<String> = Vec::new();
                let mut i: usize = 0;
                assert(names@.map_values(|t: String| t@) =~= names_of(all.take(0)));
                while i < targets.len()
                    invariant
                        i <= targets.len(),
                        all == entries_view(targets@),
                        names@.map_values(|t: String| t@) == names_of(all.take(i as int)),
                    decreases targets.len() - i,
                {
                    let name = targets[i].name.clone();
                    proof {
                        let listed = names@.map_values(|t: String| t@);
                        assert(all[i as int] == targets@[i as int]@);
                        assert(all.take(i + 1) =~= all.take(i as int).push(all[i as int]));
                        assert(names_of(all.take(i + 1)) =~= names_of(all.take(i as int)).push(
                            name@,
                        ));
                        assert(names@.push(name).map_values(|t: String| t@) =~= listed.push(
                            name@,
                        ));
                    }
                    names.push(name);
                    i += 1;
                }
                assert(all.take(targets@.len() as int) =~= all);
                let joined = join_with_commas(&names);
                confirm_question(joined.as_str())
            },
            None => String::from_str("Confirm action?"),
        }
    }
}

} // verus!
