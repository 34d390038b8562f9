//! Catalog entries and their per-platform command sets.

use vstd::prelude::*;

verus! {

/// The mathematical content of an [`InstallCommands`]: one command text per platform,
/// an empty or blank text meaning that the platform is not supported.
pub ghost struct CommandsView {
    pub linux: Seq<char>,
    pub wsl: Seq<char>,
    pub mac: Seq<char>,
    pub windows: Seq<char>,
}

/// The mathematical content of an [`AppEntry`].
pub ghost struct EntryView {
    pub id: Seq<char>,
    pub name: Seq<char>,
    pub description: Seq<char>,
    pub category: Seq<char>,
    pub repo: Seq<char>,
    pub binary: Seq<char>,
    pub install: CommandsView,
    pub uninstall: CommandsView,
}

/// Shell commands for one action, keyed by platform.
#[derive(Debug)]
pub struct InstallCommands {
    pub linux: String,
    pub wsl: String,
    pub mac: String,
    pub windows: String,
}

/// One installable application of the catalog.
#[derive(Debug)]
pub struct AppEntry {
    pub id: String,
    pub name: String,
    pub description: String,
    pub category: String,
    pub repo: String,
    pub binary: String,
    pub install: InstallCommands,
    pub uninstall: InstallCommands,
}

impl View for InstallCommands {
    type V = CommandsView;

    open spec fn view(&self) -> CommandsView {
        CommandsView {
            linux: self.linux@,
            wsl: self.wsl@,
            mac: self.mac@,
            windows: self.windows@,
        }
    }
}

impl View for AppEntry {
    type V = EntryView;

    open spec fn view(&self) -> EntryView {
        EntryView {
            id: self.id@,
            name: self.name@,
            description: self.description@,
            category: self.category@,
            repo: self.repo@,
            binary: self.binary@,
            install: self.install@,
            uninstall: self.uninstall@,
        }
    }
}

impl Clone for InstallCommands {
    fn clone(&self) -> (copy: Self)
        ensures
            copy@ == self@,
    {
        InstallCommands {
            linux: self.linux.clone(),
            wsl: self.wsl.clone(),
            mac: self.mac.clone(),
            windows: self.windows.clone(),
        }
    }
}

impl Clone for AppEntry {
    fn clone(&self) -> (copy: Self)
        ensures
            copy@ == self@,
    {
        AppEntry {
            id: self.id.clone(),
            name: self.name.clone(),
            description: self.description.clone(),
            category: self.category.clone(),
            repo: self.repo.clone(),
            binary: self.binary.clone(),
            install: self.install.clone(),
            uninstall: self.uninstall.clone(),
        }
    }
}

/// The contents of a list of entries, in order.
pub open spec fn entries_view(entries: Seq<AppEntry>) -> Seq<EntryView> {
    entries.map_values(|e: AppEntry| e@)
}

/// The contents of a list of texts, in order.
pub open spec fn texts_view(texts: Seq<String>) -> Seq<Seq<char>> {
    texts.map_values(|t: String| t@)
}

} // verus!
