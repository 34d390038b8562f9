//! The mathematical model of the application state: what decides which entries
//! are shown, the operations of the list as functions on the model, the
//! invariant, and what follows from them.

use vstd::prelude::*;
use crate::app::report::{comma_joined, confirm_question_text};
use crate::app::state::{BatchView, LOG_CAPACITY, LOG_LIFETIME_NANOS, LogLevel, LogView, Mode, Tab};
use crate::registry::model::EntryView;
use crate::system::os::Platform;
use crate::utils::text::{
    contains_text,
    eq_ignore_case,
    is_blank,
    lemma_text_lt_irreflexive,
    lower,
    text_lt,
};

verus! {

/// The ids that occur in a catalog.
pub open spec fn ids_of(entries: Seq<EntryView>) -> Set<Seq<char>> {
    Set::new(
        |id: Seq<char>| exists|i: int| 0 <= i < entries.len() && #[trigger] entries[i].id == id,
    )
}

/// The ids of the first `n` entries whose probe found the binary.
pub open spec fn installed_upto(entries: Seq<EntryView>, probes: Seq<bool>, n: int) -> Set<
    Seq<char>,
> {
    Set::new(
        |id: Seq<char>|
            exists|i: int|
                0 <= i < n && i < entries.len() && i < probes.len() && probes[i]
                    && #[trigger] entries[i].id == id,
    )
}

/// The ids of all entries whose probe found the binary: the installed set.
pub open spec fn installed_from(entries: Seq<EntryView>, probes: Seq<bool>) -> Set<Seq<char>> {
    installed_upto(entries, probes, entries.len() as int)
}

/// The distinct categories of the first `n` entries.
pub open spec fn categories_upto(entries: Seq<EntryView>, n: int) -> Set<Seq<char>> {
    Set::new(
        |c: Seq<char>|
            exists|i: int|
                0 <= i < n && i < entries.len() && #[trigger] entries[i].category == c,
    )
}

/// Whether a list of texts ascends strictly, which rules out duplicates.
pub open spec fn strictly_sorted(texts: Seq<Seq<char>>) -> bool {
    forall|i: int, j: int|
        0 <= i < j < texts.len() ==> text_lt(#[trigger] texts[i], #[trigger] texts[j])
}

/// A list that ascends strictly holds no text twice.
pub proof fn lemma_sorted_distinct(texts: Seq<Seq<char>>)
    requires
        strictly_sorted(texts),
    ensures
        texts.no_duplicates(),
{
    assert forall|i: int, j: int|
        0 <= i < texts.len() && 0 <= j < texts.len() && i != j implies texts[i] != texts[j] by {
        lemma_text_lt_irreflexive(texts[i]);
        if i < j {
            assert(text_lt(texts[i], texts[j]));
        } else {
            assert(text_lt(texts[j], texts[i]));
        }
    }
}

/// The cursor after the list it points into changed to length `len`: kept while
/// in bounds, cleared on an empty list, otherwise reset to the first row.
pub open spec fn repaired_cursor(cursor: Option<usize>, len: nat) -> Option<usize> {
    match cursor {
        Some(i) if i < len => Some(i),
        _ => if len == 0 {
            None
        } else {
            Some(0)
        },
    }
}

/// Whether a notification made at `created_at` is still to be shown at `now`.
pub open spec fn is_live(created_at: u64, now: u64) -> bool {
    now - created_at < LOG_LIFETIME_NANOS
}

/// What decides which entries are shown: the catalog, the installed set, the
/// active tab and category, and the search query.
pub ghost struct Scope {
    pub entries: Seq<EntryView>,
    pub installed: Set<Seq<char>>,
    pub tab: Tab,
    pub categories: Seq<Seq<char>>,
    pub category: usize,
    pub query: Seq<char>,
}

impl Scope {
    /// Whether an entry passes the active tab.
    pub open spec fn matches_tab(self, entry: EntryView) -> bool {
        match self.tab {
            Tab::All => true,
            Tab::Installed => self.installed.contains(entry.id),
            Tab::Categories => if self.category < self.categories.len() {
                eq_ignore_case(entry.category, self.categories[self.category as int])
            } else {
                true
            },
        }
    }

    /// Whether an entry passes the search query: a blank query passes everything,
    /// any other must occur, up to ASCII case, in the name, description, category or id.
    pub open spec fn matches_search(self, entry: EntryView) -> bool {
        is_blank(self.query) || {
            let needle = lower(self.query);
            ||| contains_text(lower(entry.name), needle)
            ||| contains_text(lower(entry.description), needle)
            ||| contains_text(lower(entry.category), needle)
            ||| contains_text(lower(entry.id), needle)
        }
    }

    /// Whether the entry at a catalog position is shown.
    pub open spec fn shows(self, index: int) -> bool {
        &&& 0 <= index < self.entries.len()
        &&& self.matches_tab(self.entries[index])
        &&& self.matches_search(self.entries[index])
    }

    /// The shown positions among the first `n` of the catalog, ascending.
    pub open spec fn visible_upto(self, n: nat) -> Seq<usize>
        decreases n,
    {
        if n == 0 {
            Seq::empty()
        } else {
            let before = self.visible_upto((n - 1) as nat);
            if self.shows(n - 1) {
                before.push((n - 1) as usize)
            } else {
                before
            }
        }
    }

    /// The shown positions of the whole catalog, ascending.
    pub open spec fn visible(self) -> Seq<usize> {
        self.visible_upto(self.entries.len())
    }
}

/// The mathematical state of the application. `launches` counts the launches
/// planned so far, and `started` is the origin of the clock that dates the
/// notifications.
pub ghost struct Model {
    pub entries: Seq<EntryView>,
    pub installed: Set<Seq<char>>,
    pub tab: Tab,
    pub categories: Seq<Seq<char>>,
    pub category: usize,
    pub filtered: Seq<usize>,
    pub cursor: Option<usize>,
    pub selected: Set<Seq<char>>,
    pub mode: Mode,
    pub query: Seq<char>,
    pub committed_query: Seq<char>,
    pub status: Seq<char>,
    pub platform: Platform,
    pub confirm: Option<Seq<EntryView>>,
    pub confirm_yes: bool,
    pub logs: Seq<LogView>,
    pub batch: Option<BatchView>,
    pub launches: u64,
    pub started: std::time::Instant,
}

impl Model {
    /// The part of the state that decides which entries are shown.
    pub open spec fn scope(self) -> Scope {
        Scope {
            entries: self.entries,
            installed: self.installed,
            tab: self.tab,
            categories: self.categories,
            category: self.category,
            query: self.query,
        }
    }

    /// Whether an entry passes the active tab.
    pub open spec fn matches_tab(self, entry: EntryView) -> bool {
        self.scope().matches_tab(entry)
    }

    /// Whether an entry passes the search query.
    pub open spec fn matches_search(self, entry: EntryView) -> bool {
        self.scope().matches_search(entry)
    }

    /// The shown positions of the whole catalog, ascending.
    pub open spec fn visible(self) -> Seq<usize> {
        self.scope().visible()
    }

    /// The state after the filter is recomputed and the cursor repaired.
    pub open spec fn refiltered(self) -> Model {
        Model {
            filtered: self.visible(),
            cursor: repaired_cursor(self.cursor, self.visible().len()),
            ..self
        }
    }

    /// The entry under the cursor, if any.
    pub open spec fn current(self) -> Option<EntryView> {
        match self.cursor {
            Some(row) if row < self.filtered.len() && self.filtered[row as int]
                < self.entries.len() => Some(self.entries[self.filtered[row as int] as int]),
            _ => None,
        }
    }

    /// The cursor one row down, wrapping to the first row; cleared on an empty list.
    pub open spec fn moved_down(self) -> Model {
        let cursor = if self.filtered.len() == 0 {
            None
        } else {
            match self.cursor {
                Some(row) if row + 1 < self.filtered.len() => Some((row + 1) as usize),
                _ => Some(0usize),
            }
        };
        Model { cursor, ..self }
    }

    /// The cursor one row up, wrapping to the last row; cleared on an empty list.
    pub open spec fn moved_up(self) -> Model {
        let cursor = if self.filtered.len() == 0 {
            None
        } else {
            match self.cursor {
                Some(row) if row > 0 => Some((row - 1) as usize),
                _ => Some((self.filtered.len() - 1) as usize),
            }
        };
        Model { cursor, ..self }
    }

    /// The selection with the entry under the cursor flipped; unchanged without one.
    pub open spec fn toggled(self) -> Model {
        match self.current() {
            Some(entry) => Model {
                selected: if self.selected.contains(entry.id) {
                    self.selected.remove(entry.id)
                } else {
                    self.selected.insert(entry.id)
                },
                ..self
            },
            None => self,
        }
    }

    /// The entries that are explicitly selected, in catalog order.
    pub open spec fn chosen(self) -> Seq<EntryView> {
        self.entries.filter(|e: EntryView| self.selected.contains(e.id))
    }

    /// The entries an action applies to: the explicit selection, or, if that is
    /// empty, the entry under the cursor alone, or nothing.
    pub open spec fn targets(self) -> Seq<EntryView> {
        if self.chosen().len() > 0 {
            self.chosen()
        } else {
            match self.current() {
                Some(entry) => seq![entry],
                None => Seq::empty(),
            }
        }
    }

    /// The next tab, wrapping.
    pub open spec fn tab_after(tab: Tab) -> Tab {
        match tab {
            Tab::All => Tab::Installed,
            Tab::Installed => Tab::Categories,
            Tab::Categories => Tab::All,
        }
    }

    /// The previous tab, wrapping.
    pub open spec fn tab_before(tab: Tab) -> Tab {
        match tab {
            Tab::All => Tab::Categories,
            Tab::Installed => Tab::All,
            Tab::Categories => Tab::Installed,
        }
    }

    /// The state with another tab, the filter recomputed.
    pub open spec fn with_tab(self, tab: Tab) -> Model {
        Model { tab, ..self }.refiltered()
    }

    /// The state one category to the right, wrapping; unchanged off the category tab.
    pub open spec fn category_stepped_right(self) -> Model {
        if self.tab != Tab::Categories || self.categories.len() == 0 {
            self
        } else {
            let next = if self.category + 1 < self.categories.len() {
                (self.category + 1) as usize
            } else {
                0usize
            };
            Model { category: next, ..self }.refiltered()
        }
    }

    /// The state one category to the left, wrapping; unchanged off the category tab.
    pub open spec fn category_stepped_left(self) -> Model {
        if self.tab != Tab::Categories || self.categories.len() == 0 {
            self
        } else {
            let next = if self.category == 0 {
                (self.categories.len() - 1) as usize
            } else {
                (self.category - 1) as usize
            };
            Model { category: next, ..self }.refiltered()
        }
    }

    /// The state with another search query, the filter recomputed.
    pub open spec fn with_query(self, query: Seq<char>) -> Model {
        Model { query, ..self }.refiltered()
    }

    /// The state with another installed set, the filter recomputed. The set is
    /// rebuilt from the probes alone, never patched.
    pub open spec fn with_probes(self, probes: Seq<bool>) -> Model {
        Model { installed: installed_from(self.entries, probes), ..self }.refiltered()
    }

    /// The state with another status line.
    pub open spec fn with_status(self, status: Seq<char>) -> Model {
        Model { status, ..self }
    }

    /// The notifications that are still to be shown at `now`, oldest first.
    pub open spec fn live_logs(self, now: u64) -> Seq<LogView> {
        self.logs.filter(|l: LogView| is_live(l.created_at, now))
    }

    /// The state after a notification is added at `now`: expired ones are dropped
    /// first, and the oldest gives way if the log would exceed its capacity.
    pub open spec fn logged(self, message: Seq<char>, level: LogLevel, now: u64) -> Model {
        let grown = self.live_logs(now).push(LogView { message, level, created_at: now });
        Model {
            logs: if grown.len() > LOG_CAPACITY {
                grown.drop_first()
            } else {
                grown
            },
            ..self
        }
    }

    /// The state with the expired notifications dropped.
    pub open spec fn pruned(self, now: u64) -> Model {
        Model { logs: self.live_logs(now), ..self }
    }

    /// Whether the cursor fits the filtered list: absent exactly when the list is
    /// empty, else a row of it.
    pub open spec fn cursor_fits(self) -> bool {
        match self.cursor {
            Some(row) => row < self.filtered.len(),
            None => self.filtered.len() == 0,
        }
    }

    /// The invariant of the state apart from the filtered list and the cursor:
    /// there is a category and the selected one exists, installed and selected
    /// ids belong to the catalog, the log is within capacity, a confirmation is
    /// pending exactly in the confirming mode, and a batch runs in normal mode only.
    pub open spec fn steady(self) -> bool {
        &&& self.categories.len() > 0
        &&& self.category < self.categories.len()
        &&& self.installed.subset_of(ids_of(self.entries))
        &&& self.selected.subset_of(ids_of(self.entries))
        &&& self.logs.len() <= LOG_CAPACITY
        &&& (self.mode == Mode::ConfirmPending <==> self.confirm is Some)
        &&& (self.batch is Some ==> self.mode == Mode::Normal)
    }

    /// The invariant of the state: the filtered list holds the shown positions,
    /// the cursor fits it, and the rest is steady.
    pub open spec fn inv(self) -> bool {
        &&& self.steady()
        &&& self.filtered == self.visible()
        &&& self.cursor_fits()
    }
}

impl Scope {
    /// The filtered list holds exactly the shown positions, in catalog order:
    /// every member is a shown position, members ascend strictly, and no shown
    /// position is missing.
    pub proof fn lemma_visible_exact(self, n: nat)
        requires
            n <= self.entries.len(),
            n <= usize::MAX,
        ensures
            self.visible_upto(n).len() <= n,
            forall|k: int|
                0 <= k < self.visible_upto(n).len() ==> (#[trigger] self.visible_upto(n)[k]) < n
                    && self.shows(self.visible_upto(n)[k] as int),
            forall|j: int, k: int|
                0 <= j < k < self.visible_upto(n).len() ==> (#[trigger] self.visible_upto(n)[j])
                    < (#[trigger] self.visible_upto(n)[k]),
            forall|i: int|
                0 <= i < n && self.shows(i) ==> self.visible_upto(n).contains(i as usize),
        decreases n,
    {
        if n > 0 {
            let before = self.visible_upto((n - 1) as nat);
            self.lemma_visible_exact((n - 1) as nat);
            let now = self.visible_upto(n);
            if self.shows(n - 1) {
                assert(now == before.push((n - 1) as usize));
                assert(now[before.len() as int] == (n - 1) as usize);
                assert forall|i: int| 0 <= i < n && self.shows(i) implies now.contains(
                    i as usize,
                ) by {
                    if i < n - 1 {
                        let k = choose|k: int| 0 <= k < before.len() && before[k] == i as usize;
                        assert(now[k] == i as usize);
                    }
                }
            } else {
                assert forall|i: int| 0 <= i < n && self.shows(i) implies now.contains(
                    i as usize,
                ) by {
                    assert(before.contains(i as usize));
                }
            }
        }
    }
}

/// A repaired cursor fits a list of the length it was repaired for.
pub proof fn lemma_repaired_cursor_fits(cursor: Option<usize>, len: nat)
    ensures
        match repaired_cursor(cursor, len) {
            Some(row) => row < len,
            None => len == 0,
        },
        repaired_cursor(repaired_cursor(cursor, len), len) == repaired_cursor(cursor, len),
{
}

impl Model {
    /// Recomputing the filter establishes the list part of the invariant, keeps
    /// the rest of it, and is idempotent.
    pub proof fn lemma_refiltered(self)
        ensures
            self.refiltered().filtered == self.refiltered().visible(),
            self.refiltered().cursor_fits(),
            self.refiltered().refiltered() == self.refiltered(),
            self.steady() ==> self.refiltered().inv(),
    {
        lemma_repaired_cursor_fits(self.cursor, self.visible().len());
        assert(self.refiltered().scope() == self.scope());
    }
}

impl Model {
    /// Rebuilding the installed set twice from the same probes gives what one
    /// rebuild gives: the refresh is idempotent and does not depend on the
    /// set it replaces.
    pub proof fn lemma_refresh_idempotent(self, probes: Seq<bool>)
        ensures
            self.with_probes(probes).with_probes(probes) == self.with_probes(probes),
            self.with_probes(probes).installed == installed_from(self.entries, probes),
    {
        let once = Model { installed: installed_from(self.entries, probes), ..self };
        once.lemma_refiltered();
        let again = Model {
            installed: installed_from(self.entries, probes),
            ..once.refiltered()
        };
        assert(again == once.refiltered());
    }
}

/// The category shown when the catalog is empty.
pub open spec fn fallback_category() -> Seq<char> {
    "uncategorized"@
}

/// Whether `categories` is the category list of a catalog: the distinct
/// categories of its entries in ascending order, or the fallback alone for an
/// empty catalog.
pub open spec fn is_category_list(categories: Seq<Seq<char>>, entries: Seq<EntryView>) -> bool {
    if entries.len() == 0 {
        categories == seq![fallback_category()]
    } else {
        &&& strictly_sorted(categories)
        &&& categories.to_set() == categories_upto(entries, entries.len() as int)
    }
}

/// The status line of a fresh application.
pub open spec fn ready_text() -> Seq<char> {
    "Ready. Navigate with arrows/jk. Space select, I install, L launch, / search."@
}

impl Model {
    /// The state of a fresh application over a catalog, before the installed set
    /// is known and the filter computed.
    pub open spec fn fresh(
        entries: Seq<EntryView>,
        categories: Seq<Seq<char>>,
        platform: Platform,
        started: std::time::Instant,
    ) -> Model {
        Model {
            entries,
            installed: Set::empty(),
            tab: Tab::All,
            categories,
            category: 0,
            filtered: Seq::empty(),
            cursor: None,
            selected: Set::empty(),
            mode: Mode::Normal,
            query: Seq::empty(),
            committed_query: Seq::empty(),
            status: ready_text(),
            platform,
            confirm: None,
            confirm_yes: false,
            logs: Seq::empty(),
            batch: None,
            launches: 0,
            started,
        }
    }
}

impl Model {
    /// After a recompute the filtered list holds exactly the positions of the
    /// entries that pass both the tab and the search, in catalog order: every
    /// member is such a position, members ascend strictly, and every such
    /// position is a member. This holds for every tab, category and query.
    pub proof fn lemma_filter_exact(self)
        requires
            self.entries.len() <= usize::MAX,
        ensures
            forall|k: int|
                0 <= k < self.refiltered().filtered.len() ==> self.scope().shows(
                    (#[trigger] self.refiltered().filtered[k]) as int,
                ),
            forall|j: int, k: int|
                0 <= j < k < self.refiltered().filtered.len() ==> (
                #[trigger] self.refiltered().filtered[j]) < (
                #[trigger] self.refiltered().filtered[k]),
            forall|i: int|
                self.scope().shows(i) ==> exists|k: int|
                    0 <= k < self.refiltered().filtered.len()
                        && #[trigger] self.refiltered().filtered[k] == i,
    {
        self.scope().lemma_visible_exact(self.entries.len());
        let list = self.refiltered().filtered;
        assert forall|i: int| self.scope().shows(i) implies exists|k: int|
            0 <= k < list.len() && #[trigger] list[k] == i by {
            assert(list.contains(i as usize));
            let k = choose|k: int| 0 <= k < list.len() && list[k] == i as usize;
            assert(list[k] == i);
        }
    }

    /// After a recompute the cursor is absent exactly when the filtered list is
    /// empty, and otherwise points at one of its rows.
    pub proof fn lemma_cursor_after_recompute(self)
        ensures
            self.refiltered().cursor is None <==> self.refiltered().filtered.len() == 0,
            self.refiltered().cursor matches Some(row) ==> row < self.refiltered().filtered.len(),
    {
        self.lemma_refiltered();
    }

    /// The targets of an action are the explicit selection where it is not
    /// empty, and the entry under the cursor alone otherwise; there are none
    /// only if nothing is selected and nothing is under the cursor. In a state
    /// that meets the invariant, a selection that holds an id is not empty.
    pub proof fn lemma_targets(self)
        ensures
            self.chosen().len() > 0 ==> self.targets() == self.chosen(),
            self.chosen().len() == 0 ==> self.targets() == match self.current() {
                Some(entry) => seq![entry],
                None => Seq::empty(),
            },
            self.targets().len() == 0 <==> (self.chosen().len() == 0 && self.current() is None),
            forall|k: int|
                0 <= k < self.chosen().len() ==> self.selected.contains(
                    (#[trigger] self.chosen()[k]).id,
                ),
            self.inv() && self.selected.len() > 0 && self.selected.finite() ==> self.chosen().len()
                > 0,
    {
        let keep = |e: EntryView| self.selected.contains(e.id);
        assert forall|k: int| 0 <= k < self.chosen().len() implies self.selected.contains(
            (#[trigger] self.chosen()[k]).id,
        ) by {
            self.entries.lemma_filter_pred(keep, k);
        }
        if self.inv() && self.selected.len() > 0 && self.selected.finite() {
            let id = self.selected.choose();
            assert(self.selected.contains(id)) by {
                if self.selected =~= Set::empty() {
                }
            }
            assert(ids_of(self.entries).contains(id));
            let i = choose|i: int| 0 <= i < self.entries.len() && self.entries[i].id == id;
            self.entries.lemma_filter_contains(keep, i);
        }
    }

    /// The log never grows beyond its capacity, and what is shown of it at a
    /// given time is never older than the lifetime of a notification.
    pub proof fn lemma_log_bounds(self, message: Seq<char>, level: LogLevel, now: u64)
        ensures
            self.logs.len() <= LOG_CAPACITY ==> self.logged(message, level, now).logs.len()
                <= LOG_CAPACITY,
            self.live_logs(now).len() <= self.logs.len(),
            forall|k: int|
                0 <= k < self.live_logs(now).len() ==> now - (
                #[trigger] self.live_logs(now)[k]).created_at < LOG_LIFETIME_NANOS,
    {
        let keep = |l: LogView| is_live(l.created_at, now);
        self.logs.lemma_filter_len(keep);
        assert forall|k: int| 0 <= k < self.live_logs(now).len() implies now - (
        #[trigger] self.live_logs(now)[k]).created_at < LOG_LIFETIME_NANOS by {
            self.logs.lemma_filter_pred(keep, k);
        }
    }
}

/// The names of a list of entries, in order.
pub open spec fn names_of(entries: Seq<EntryView>) -> Seq<Seq<char>> {
    entries.map_values(|e: EntryView| e.name)
}

/// The question of the confirmation dialog: it names the pending targets, or
/// asks in general terms when nothing is pending.
pub open spec fn question_text(confirm: Option<Seq<EntryView>>) -> Seq<char> {
    match confirm {
        Some(targets) => confirm_question_text(comma_joined(names_of(targets))),
        None => "Confirm action?"@,
    }
}

impl Model {
    /// On the category tab of a state that meets the invariant, stepping through
    /// the categories wraps modulo their number, in both directions.
    pub proof fn lemma_category_wraps(self)
        requires
            self.inv(),
            self.tab == Tab::Categories,
            self.categories.len() <= usize::MAX,
        ensures
            self.category_stepped_right().category as int == (self.category + 1) % (
            self.categories.len() as int),
            self.category_stepped_left().category as int == (self.category + self.categories.len()
                - 1) % (self.categories.len() as int),
    {
        let c = self.category as int;
        let n = self.categories.len() as int;
        assert((c + 1) % n == if c + 1 < n {
            c + 1
        } else {
            0
        }) by (nonlinear_arith)
            requires
                0 <= c < n,
        ;
        assert((c + n - 1) % n == if c == 0 {
            n - 1
        } else {
            c - 1
        }) by (nonlinear_arith)
            requires
                0 <= c < n,
        ;
    }
}

} // verus!
