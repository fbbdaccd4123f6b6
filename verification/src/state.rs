//! The state of the application, and what each action of the user and each
//! answer of the outside world does to it.
//!
//! Nothing here reads or writes the stored path list. An action that needs
//! it comes in two steps: the first takes the value that was read and gives
//! the value to write; the second takes the outcome of the write and brings
//! the state up to date.

use vstd::prelude::*;
use vstd::string::StringExecFns;
use crate::activation::{activate, activated_value};
use crate::cleaner::{cleaned, perform_cleanup, scan_for_issues, scanned};
use crate::groups::{has_group, paths_of, versions_of, with_versions, GroupView, Groups};
use crate::history::{record, recorded};
use crate::language::Language;
use crate::path_list::{entries, joined};
use crate::text::{decimal, decimal_text, framed, same_text};
use crate::types::{
    history_views, issue_views, CleanerEntry, CleanerEntryView, HistoryEntry, HistoryEntryView,
    VersionEntryView,
};

verus! {

/// Everything the application remembers.
pub struct VersionSwitcherApp {
    pub languages: Groups,
    pub selected_group: String,
    pub app_language: Language,
    pub accent_color: [u8; 3],
    pub history: Vec<HistoryEntry>,
    pub new_group_name: String,
    pub new_path_input: String,
    pub new_alias_input: String,
    pub status_message: String,
    pub editing_index: Option<usize>,
    pub edit_name_buffer: String,
    pub edit_path_buffer: String,
    pub show_cleaner_window: bool,
    pub cleaner_issues: Vec<CleanerEntry>,
    pub show_history_window: bool,
    pub search_query: String,
}

/// What a [`VersionSwitcherApp`] holds.
pub struct AppView {
    pub languages: Seq<GroupView>,
    pub selected_group: Seq<char>,
    pub app_language: Language,
    pub accent_color: [u8; 3],
    pub history: Seq<HistoryEntryView>,
    pub new_group_name: Seq<char>,
    pub new_path_input: Seq<char>,
    pub new_alias_input: Seq<char>,
    pub status_message: Seq<char>,
    pub editing_index: Option<usize>,
    pub edit_name_buffer: Seq<char>,
    pub edit_path_buffer: Seq<char>,
    pub show_cleaner_window: bool,
    pub cleaner_issues: Seq<CleanerEntryView>,
    pub show_history_window: bool,
    pub search_query: Seq<char>,
}

impl View for VersionSwitcherApp {
    type V = AppView;

    open spec fn view(&self) -> AppView {
        AppView {
            languages: self.languages@,
            selected_group: self.selected_group@,
            app_language: self.app_language,
            accent_color: self.accent_color,
            history: history_views(self.history@),
            new_group_name: self.new_group_name@,
            new_path_input: self.new_path_input@,
            new_alias_input: self.new_alias_input@,
            status_message: self.status_message@,
            editing_index: self.editing_index,
            edit_name_buffer: self.edit_name_buffer@,
            edit_path_buffer: self.edit_path_buffer@,
            show_cleaner_window: self.show_cleaner_window,
            cleaner_issues: issue_views(self.cleaner_issues@),
            show_history_window: self.show_history_window,
            search_query: self.search_query@,
        }
    }
}

impl AppView {
    /// The same state with another status line.
    pub open spec fn with_status(self, status: Seq<char>) -> AppView {
        AppView { status_message: status, ..self }
    }

    /// The same state with another history.
    pub open spec fn with_history(self, history: Seq<HistoryEntryView>) -> AppView {
        AppView { history, ..self }
    }

    /// The same state with one more line on top of the history: what
    /// happened, and when.
    pub open spec fn with_entry(self, time: Seq<char>, message: Seq<char>) -> AppView {
        self.with_history(recorded(self.history, HistoryEntryView { time, message }))
    }

    /// The same state with other groups.
    pub open spec fn with_groups(self, groups: Seq<GroupView>) -> AppView {
        AppView { languages: groups, ..self }
    }

    /// The same state with another group chosen.
    pub open spec fn with_selected(self, name: Seq<char>) -> AppView {
        AppView { selected_group: name, ..self }
    }

    /// The same state with other issues in the cleaner.
    pub open spec fn with_issues(self, issues: Seq<CleanerEntryView>) -> AppView {
        AppView { cleaner_issues: issues, ..self }
    }

    /// Whether the chosen group exists.
    pub open spec fn has_chosen(self) -> bool {
        has_group(self.languages, self.selected_group)
    }

    /// The versions of the chosen group; none where it does not exist.
    pub open spec fn chosen(self) -> Seq<VersionEntryView> {
        versions_of(self.languages, self.selected_group)
    }

    /// The same state with other versions in the chosen group. Nothing
    /// changes where that group does not exist.
    pub open spec fn with_chosen(self, versions: Seq<VersionEntryView>) -> AppView {
        AppView {
            languages: with_versions(self.languages, self.selected_group, versions),
            ..self
        }
    }

    /// The paths of the chosen group, as a set.
    pub open spec fn managed(self) -> Set<Seq<char>> {
        paths_of(self.chosen()).to_set()
    }
}

/// The name of the group that is there when no other is.
pub open spec fn general() -> Seq<char> {
    "General"@
}

/// What an export or import reports when the user closed the dialog
/// without choosing a file.
pub open spec fn cancelled() -> Seq<char> {
    "Cancelled"@
}

/// The state of an application that was never used.
pub open spec fn initial() -> AppView {
    AppView {
        languages: Seq::empty(),
        selected_group: general(),
        app_language: Language::German,
        accent_color: [255u8, 140u8, 0u8],
        history: Seq::empty(),
        new_group_name: Seq::empty(),
        new_path_input: Seq::empty(),
        new_alias_input: Seq::empty(),
        status_message: Language::German.status_ready_text(),
        editing_index: None,
        edit_name_buffer: Seq::empty(),
        edit_path_buffer: Seq::empty(),
        show_cleaner_window: false,
        cleaner_issues: Seq::empty(),
        show_history_window: false,
        search_query: Seq::empty(),
    }
}

/// The group to show once `groups` have taken the place of the old ones: the
/// chosen one if it is among them, else the first, else `General`.
pub open spec fn selection_after_import(groups: Seq<GroupView>, selected: Seq<char>) -> Seq<char> {
    if has_group(groups, selected) {
        selected
    } else if groups.len() > 0 {
        groups[0].name
    } else {
        general()
    }
}

/// The history line of an activation.
pub open spec fn activation_message(alias: Seq<char>, group: Seq<char>) -> Seq<char> {
    "Activated: "@ + alias + " ("@ + group + ")"@
}

/// The history line of a cleanup.
pub open spec fn cleanup_message(count: nat) -> Seq<char> {
    "Cleaned "@ + decimal(count) + " entries from PATH"@
}

/// What to tell the user in a notification.
#[derive(Debug)]
pub struct Notice {
    pub title: String,
    pub body: String,
}

/// What a [`Notice`] holds.
pub struct NoticeView {
    pub title: Seq<char>,
    pub body: Seq<char>,
}

impl View for Notice {
    type V = NoticeView;

    open spec fn view(&self) -> NoticeView {
        NoticeView { title: self.title@, body: self.body@ }
    }
}

impl Default for VersionSwitcherApp {
    fn default() -> (app: Self)
        ensures
            app@ == initial(),
    {
        let app = VersionSwitcherApp {
            languages: Groups::new(),
            selected_group: String::from_str("General"),
            app_language: Language::German,
            accent_color: [255, 140, 0],
            history: Vec::new(),
            new_group_name: String::new(),
            new_path_input: String::new(),
            new_alias_input: String::new(),
            status_message: String::from_str("Bereit."),
            editing_index: None,
            edit_name_buffer: String::new(),
            edit_path_buffer: String::new(),
            show_cleaner_window: false,
            cleaner_issues: Vec::new(),
            show_history_window: false,
            search_query: String::new(),
        };
        proof {
            assert(app@.history =~= Seq::<HistoryEntryView>::empty());
            assert(app@.cleaner_issues =~= Seq::<CleanerEntryView>::empty());
            assert(app@.accent_color == [255u8, 140u8, 0u8]) by {
                assert(app@.accent_color@ =~= [255u8, 140u8, 0u8]@);
            }
        }
        app
    }
}

impl VersionSwitcherApp {
    /// Puts `message` on top of the history, as having happened at `time`.
    pub fn add_to_history(&mut self, time: String, message: String)
        ensures
            final(self)@ == old(self)@.with_entry(time@, message@),
    {
        record(&mut self.history, time, message);
    }

    /// First step of an activation: the value to store, given the stored
    /// value `current_path`. It has `target_path` in front, and none of the
    /// paths of the chosen group after it.
    pub fn switch_version(&self, current_path: &str, target_path: &str) -> (stored: String)
        ensures
            stored@ == activated_value(current_path@, self@.managed(), target_path@),
    {
        let managed = self.languages.paths(self.selected_group.as_str());
        activate(current_path, &managed, target_path)
    }

    /// Second step of an activation, given the outcome of the write and
    /// the time of day.
    ///
    /// After a write that went well the status names the path, the history
    /// names the alias and the group, and the result is the notification to
    /// show. After one that failed the status carries the error and nothing
    /// else changes.
    pub fn switch_done(
        &mut self,
        outcome: Result<(), String>,
        target_path: &str,
        target_alias: &str,
        time: String,
    ) -> (notice: Option<Notice>)
        ensures
            outcome is Ok ==> notice is Some && notice->0@ == (NoticeView {
                title: old(self)@.app_language.notify_title_text(),
                body: old(self)@.app_language.notify_body_text(target_alias@),
            }),
            outcome is Ok ==> final(self)@ == old(self)@.with_status(
                old(self)@.app_language.status_activated_text(target_path@),
            ).with_entry(time@, activation_message(target_alias@, old(self)@.selected_group)),
            outcome is Err ==> notice is None,
            outcome is Err ==> final(self)@ == old(self)@.with_status(
                old(self)@.app_language.status_error_text(outcome->Err_0@),
            ),
    {
        match outcome {
            Ok(_) => {
                let notice = Notice {
                    title: String::from_str(self.app_language.notify_title()),
                    body: self.app_language.notify_body(target_alias),
                };
                self.status_message = self.app_language.status_activated(target_path);
                let mut message = framed("Activated: ", target_alias, " (");
                message.append(self.selected_group.as_str());
                message.append(")");
                self.add_to_history(time, message);
                Some(notice)
            },
            Err(error) => {
                self.status_message = self.app_language.status_error(error.as_str());
                None
            },
        }
    }

    /// Brings the state up to date after an export, given its outcome and
    /// the time of day.
    ///
    /// A good export is said in the status and recorded. One that the user
    /// cancelled leaves no trace. Any other error goes into the status.
    pub fn run_export(&mut self, outcome: Result<(), String>, time: String)
        ensures
            outcome is Ok ==> final(self)@ == old(self)@.with_status(
                old(self)@.app_language.status_export_ok_text(),
            ).with_entry(time@, "Configuration Exported"@),
            outcome is Err && outcome->Err_0@ == cancelled() ==> final(self)@ == old(self)@,
            outcome is Err && outcome->Err_0@ != cancelled() ==> final(self)@ == old(self)@
                .with_status(old(self)@.app_language.status_export_err_text(outcome->Err_0@)),
    {
        match outcome {
            Ok(_) => {
                self.status_message = String::from_str(self.app_language.status_export_ok());
                self.add_to_history(time, String::from_str("Configuration Exported"));
            },
            Err(error) => {
                if !same_text(error.as_str(), "Cancelled") {
                    self.status_message = self.app_language.status_export_err(error.as_str());
                }
            },
        }
    }

    /// Brings the state up to date after an import, given its outcome and
    /// the time of day.
    ///
    /// Groups that were read take the place of all the old ones. An import
    /// that the user cancelled leaves no trace. Any other error goes into
    /// the status, and the groups stay as they were.
    pub fn run_import(&mut self, outcome: Result<Groups, String>, time: String)
        ensures
            outcome is Ok ==> final(self)@ == old(self)@.with_groups(outcome->Ok_0@).with_selected(
                selection_after_import(outcome->Ok_0@, old(self)@.selected_group),
            ).with_status(old(self)@.app_language.status_import_ok_text()).with_entry(
                time@,
                "Configuration Imported"@,
            ),
            outcome is Err && outcome->Err_0@ == cancelled() ==> final(self)@ == old(self)@,
            outcome is Err && outcome->Err_0@ != cancelled() ==> final(self)@ == old(self)@
                .with_status(old(self)@.app_language.status_import_err_text(outcome->Err_0@)),
    {
        match outcome {
            Ok(data) => {
                self.languages = data;
                if !self.languages.contains_key(self.selected_group.as_str()) {
                    match self.languages.first_name() {
                        Some(name) => {
                            self.selected_group = name;
                        },
                        None => {
                            self.selected_group = String::from_str("General");
                        },
                    }
                }
                self.status_message = String::from_str(self.app_language.status_import_ok());
                self.add_to_history(time, String::from_str("Configuration Imported"));
            },
            Err(error) => {
                if !same_text(error.as_str(), "Cancelled") {
                    self.status_message = self.app_language.status_import_err(error.as_str());
                }
            },
        }
    }

    /// First step of a cleanup: the value to store and the number of
    /// entries taken out, given the stored value `current_path`. Where the
    /// cleanup would take nothing out there is nothing to store.
    pub fn run_cleaner(&self, current_path: &str) -> (plan: Option<(String, usize)>)
        ensures
            plan is Some <==> cleaned(entries(current_path@), self@.cleaner_issues).len() < entries(
                current_path@,
            ).len(),
            plan is Some ==> (plan->0).0@ == joined(
                cleaned(entries(current_path@), self@.cleaner_issues),
            ) && (plan->0).1 == entries(current_path@).len() - cleaned(
                entries(current_path@),
                self@.cleaner_issues,
            ).len(),
    {
        let (new_path, count) = perform_cleanup(current_path, self.cleaner_issues.as_slice());
        if count > 0 {
            Some((new_path, count))
        } else {
            None
        }
    }

    /// Second step of a cleanup that took `count` entries out, given the
    /// outcome of the write, the value that is stored now and the time of
    /// day.
    ///
    /// After a good write the status gives the count, the stored value is
    /// scanned anew, and the cleanup is recorded. After a failed one the
    /// status carries the error and nothing else changes.
    pub fn cleaner_done(
        &mut self,
        outcome: Result<(), String>,
        count: usize,
        current_path: &str,
        time: String,
    )
        ensures
            outcome is Ok ==> final(self)@ == old(self)@.with_status(
                old(self)@.app_language.status_cleaned_text(count as nat),
            ).with_issues(final(self)@.cleaner_issues).with_entry(
                time@,
                cleanup_message(count as nat),
            ),
            outcome is Ok ==> scanned(current_path@, final(self)@.cleaner_issues),
            outcome is Err ==> final(self)@ == old(self)@.with_status(
                old(self)@.app_language.status_error_text(outcome->Err_0@),
            ),
    {
        match outcome {
            Ok(_) => {
                self.status_message = self.app_language.status_cleaned(count);
                self.cleaner_issues = scan_for_issues(current_path);
                let number = decimal_text(count);
                self.add_to_history(
                    time,
                    framed("Cleaned ", number.as_str(), " entries from PATH"),
                );
            },
            Err(error) => {
                self.status_message = self.app_language.status_error(error.as_str());
            },
        }
    }

    /// Scans the stored value `current_path` and shows what was found in the
    /// cleaner.
    pub fn rescan(&mut self, current_path: &str)
        ensures
            final(self)@ == old(self)@.with_issues(final(self)@.cleaner_issues),
            scanned(current_path@, final(self)@.cleaner_issues),
    {
        self.cleaner_issues = scan_for_issues(current_path);
    }

    /// The status line as it is shown. While nothing has happened it
    /// follows the language; later it is the status as it was set.
    pub fn displayed_status(&self) -> (text: String)
        ensures
            text@ == if self@.status_message == Language::German.status_ready_text()
                || self@.status_message == Language::English.status_ready_text() {
                self@.app_language.status_ready_text()
            } else {
                self@.status_message
            },
    {
        if same_text(self.status_message.as_str(), "Bereit.") || same_text(
            self.status_message.as_str(),
            "Ready.",
        ) {
            String::from_str(self.app_language.status_ready())
        } else {
            self.status_message.clone()
        }
    }
}

} // verus!
