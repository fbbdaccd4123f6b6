//! What the user does to the groups and their versions: making and deleting
//! a group, adding a version, moving, editing and deleting one, and
//! filtering the list that is shown.

use vstd::prelude::*;
use vstd::string::StringExecFns;
use crate::groups::{has_group, swapped, without_group, GroupView};
use crate::host::{lowercase, to_lowercase};
use crate::state::{general, AppView, VersionSwitcherApp};
use crate::text::{framed, glued, is_part_of, occurs_in};
use crate::types::{VersionEntry, VersionEntryView};

verus! {

/// The alias of a version that was added without one.
pub open spec fn unnamed() -> Seq<char> {
    "Unbenannt"@
}

/// The alias under which a version is added, given the alias field.
pub open spec fn alias_to_add(input: Seq<char>) -> Seq<char> {
    if input.len() == 0 {
        unnamed()
    } else {
        input
    }
}

/// `groups` with a group called `name`: as they are if there is one, else
/// with a new last group without versions.
pub open spec fn ensured(groups: Seq<GroupView>, name: Seq<char>) -> Seq<GroupView> {
    if has_group(groups, name) {
        groups
    } else {
        groups.push(GroupView { name, versions: Seq::empty() })
    }
}

/// The groups that are left when the group called `name` is deleted. Where
/// none would be left, an empty group `General` is there.
pub open spec fn after_deletion(groups: Seq<GroupView>, name: Seq<char>) -> Seq<GroupView> {
    if without_group(groups, name).len() > 0 {
        without_group(groups, name)
    } else {
        seq![GroupView { name: general(), versions: Seq::empty() }]
    }
}

/// The history line of an added version.
pub open spec fn added_message(alias: Seq<char>, group: Seq<char>) -> Seq<char> {
    "Added: "@ + alias + " -> "@ + group
}

/// The history line of an edited version.
pub open spec fn edited_message(old_alias: Seq<char>, new_alias: Seq<char>) -> Seq<char> {
    "Edited: "@ + old_alias + " -> "@ + new_alias
}

/// The history line of a deleted version.
pub open spec fn deleted_message(version: VersionEntryView) -> Seq<char> {
    "Deleted: "@ + version.alias + " ("@ + version.path + ")"@
}

/// The edit that is open after version `idx` was deleted: none if it was an
/// edit of that version, else as before.
pub open spec fn edit_after_deletion(editing: Option<usize>, idx: usize) -> Option<usize> {
    if editing == Some(idx) {
        None
    } else {
        editing
    }
}

/// Whether a version with this alias and path is shown under the search
/// text `query`. All three are compared as they are.
pub open spec fn passes(query: Seq<char>, alias: Seq<char>, path: Seq<char>) -> bool {
    query.len() == 0 || is_part_of(query, alias) || is_part_of(query, path)
}

/// Whether a version with this alias and path is shown under the search
/// text `query`: an empty search shows everything, any other shows the
/// versions whose alias or path holds it.
pub fn passes_filter(query: &str, alias: &str, path: &str) -> (shown: bool)
    ensures
        shown == passes(query@, alias@, path@),
{
    if query.unicode_len() == 0 {
        return true;
    }
    occurs_in(query, alias) || occurs_in(query, path)
}

impl VersionSwitcherApp {
    /// Makes the group named in the input field, chooses it and empties the
    /// field. A group of that name that is there already is only chosen.
    /// With an empty field nothing happens. `time` is the time of day for
    /// the history.
    pub fn create_group(&mut self, time: String)
        ensures
            old(self)@.new_group_name.len() == 0 ==> final(self)@ == old(self)@,
            old(self)@.new_group_name.len() > 0 ==> final(self)@ == (AppView {
                languages: ensured(old(self)@.languages, old(self)@.new_group_name),
                selected_group: old(self)@.new_group_name,
                new_group_name: Seq::empty(),
                ..old(self)@.with_entry(time@, "Created Group: "@ + old(self)@.new_group_name)
            }),
    {
        if self.new_group_name.as_str().unicode_len() > 0 {
            let name = self.new_group_name.clone();
            self.languages.ensure(name.as_str());
            self.add_to_history(time, glued("Created Group: ", name.as_str()));
            self.selected_group = name;
            self.new_group_name = String::new();
        }
    }

    /// Deletes the chosen group and chooses the first of those that are
    /// left. Where none is left, an empty group `General` is made and chosen.
    /// `time` is the time of day for the history.
    pub fn delete_group(&mut self, time: String)
        ensures
            final(self)@ == (AppView {
                languages: after_deletion(old(self)@.languages, old(self)@.selected_group),
                selected_group: after_deletion(
                    old(self)@.languages,
                    old(self)@.selected_group,
                )[0].name,
                ..old(self)@.with_entry(time@, "Deleted Group: "@ + old(self)@.selected_group)
            }),
    {
        let group_name = self.selected_group.clone();
        self.languages.remove(group_name.as_str());
        self.add_to_history(time, glued("Deleted Group: ", group_name.as_str()));
        match self.languages.first_name() {
            Some(first) => {
                self.selected_group = first;
            },
            None => {
                self.languages.ensure("General");
                self.selected_group = String::from_str("General");
                assert(self.languages@ =~= seq![
                    GroupView { name: general(), versions: Seq::empty() },
                ]);
            },
        }
    }

    /// Takes over a folder that the user picked or dropped. Its path goes
    /// into the path field. Its name, if it has one, goes into the alias
    /// field, unless that holds something already.
    pub fn use_folder(&mut self, path: String, folder_name: Option<String>)
        ensures
            final(self)@ == (AppView {
                new_path_input: path@,
                new_alias_input: if old(self)@.new_alias_input.len() == 0 && folder_name is Some {
                    folder_name->0@
                } else {
                    old(self)@.new_alias_input
                },
                ..old(self)@
            }),
    {
        self.new_path_input = path;
        if self.new_alias_input.as_str().unicode_len() == 0 {
            match folder_name {
                Some(name) => {
                    self.new_alias_input = name;
                },
                None => {},
            }
        }
    }

    /// Adds the version in the input fields to the chosen group and empties
    /// the fields. A version without an alias is called `Unbenannt`. With an
    /// empty path, or with no group chosen that exists, nothing happens.
    /// `time` is the time of day for the history.
    pub fn add_version(&mut self, time: String)
        ensures
            old(self)@.new_path_input.len() == 0 || !old(self)@.has_chosen() ==> final(self)@
                == old(self)@,
            old(self)@.new_path_input.len() > 0 && old(self)@.has_chosen() ==> final(self)@ == (
            AppView {
                new_path_input: Seq::empty(),
                new_alias_input: Seq::empty(),
                ..old(self)@.with_chosen(
                    old(self)@.chosen().push(
                        VersionEntryView {
                            path: old(self)@.new_path_input,
                            alias: alias_to_add(old(self)@.new_alias_input),
                        },
                    ),
                ).with_entry(
                    time@,
                    added_message(
                        alias_to_add(old(self)@.new_alias_input),
                        old(self)@.selected_group,
                    ),
                )
            }),
    {
        if self.new_path_input.as_str().unicode_len() > 0 && self.languages.contains_key(
            self.selected_group.as_str(),
        ) {
            let alias_name = if self.new_alias_input.as_str().unicode_len() == 0 {
                String::from_str("Unbenannt")
            } else {
                self.new_alias_input.clone()
            };
            let message = framed("Added: ", alias_name.as_str(), " -> ").concat(
                self.selected_group.as_str(),
            );
            let entry = VersionEntry { path: self.new_path_input.clone(), alias: alias_name };
            self.languages.push_version(self.selected_group.as_str(), entry);
            self.add_to_history(time, message);
            self.new_path_input = String::new();
            self.new_alias_input = String::new();
        }
    }

    /// Moves version `idx` of the chosen group one place up. Nothing
    /// happens where it is the first, or where there is no such version.
    pub fn move_up(&mut self, idx: usize)
        ensures
            1 <= idx < old(self)@.chosen().len() ==> final(self)@ == old(self)@.with_chosen(
                swapped(old(self)@.chosen(), idx as int, idx - 1),
            ),
            !(1 <= idx < old(self)@.chosen().len()) ==> final(self)@ == old(self)@,
    {
        if idx >= 1 {
            self.languages.swap_versions(self.selected_group.as_str(), idx, idx - 1);
        }
    }

    /// Moves version `idx` of the chosen group one place down. Nothing
    /// happens where it is the last, or where there is no such version.
    pub fn move_down(&mut self, idx: usize)
        ensures
            idx + 1 < old(self)@.chosen().len() ==> final(self)@ == old(self)@.with_chosen(
                swapped(old(self)@.chosen(), idx as int, idx + 1),
            ),
            !(idx + 1 < old(self)@.chosen().len()) ==> final(self)@ == old(self)@,
    {
        let count = self.languages.version_count(self.selected_group.as_str());
        if idx < count && idx + 1 < count {
            self.languages.swap_versions(self.selected_group.as_str(), idx, idx + 1);
        }
    }

    /// Starts to edit version `idx` of the chosen group: its alias and path
    /// go into the edit fields. Nothing happens where there is no such
    /// version.
    pub fn start_edit(&mut self, idx: usize)
        ensures
            idx < old(self)@.chosen().len() ==> final(self)@ == (AppView {
                editing_index: Some(idx),
                edit_name_buffer: old(self)@.chosen()[idx as int].alias,
                edit_path_buffer: old(self)@.chosen()[idx as int].path,
                ..old(self)@
            }),
            idx >= old(self)@.chosen().len() ==> final(self)@ == old(self)@,
    {
        let versions = self.languages.versions(self.selected_group.as_str());
        if idx < versions.len() {
            assert(versions[idx as int]@ == self@.chosen()[idx as int]);
            self.editing_index = Some(idx);
            self.edit_name_buffer = versions[idx].alias.clone();
            self.edit_path_buffer = versions[idx].path.clone();
        }
    }

    /// Ends the edit of version `idx` of the chosen group and keeps what the
    /// edit fields hold. Where the chosen group does not exist nothing
    /// happens; where it has no such version the edit only ends. `time` is
    /// the time of day for the history.
    pub fn save_edit(&mut self, idx: usize, time: String)
        ensures
            !old(self)@.has_chosen() ==> final(self)@ == old(self)@,
            old(self)@.has_chosen() && idx >= old(self)@.chosen().len() ==> final(self)@ == (
            AppView { editing_index: None, ..old(self)@ }),
            idx < old(self)@.chosen().len() ==> final(self)@ == (AppView {
                editing_index: None,
                ..old(self)@.with_chosen(
                    old(self)@.chosen().update(
                        idx as int,
                        VersionEntryView {
                            path: old(self)@.edit_path_buffer,
                            alias: old(self)@.edit_name_buffer,
                        },
                    ),
                ).with_entry(
                    time@,
                    edited_message(
                        old(self)@.chosen()[idx as int].alias,
                        old(self)@.edit_name_buffer,
                    ),
                )
            }),
    {
        if !self.languages.contains_key(self.selected_group.as_str()) {
            return ;
        }
        let versions = self.languages.versions(self.selected_group.as_str());
        if idx < versions.len() {
            assert(versions[idx as int]@ == self@.chosen()[idx as int]);
            let message = framed("Edited: ", versions[idx].alias.as_str(), " -> ").concat(
                self.edit_name_buffer.as_str(),
            );
            let entry = VersionEntry {
                path: self.edit_path_buffer.clone(),
                alias: self.edit_name_buffer.clone(),
            };
            self.languages.set_version(self.selected_group.as_str(), idx, entry);
            self.add_to_history(time, message);
        }
        self.editing_index = None;
    }

    /// Ends an edit without keeping it. Where the chosen group does not
    /// exist nothing happens.
    pub fn cancel_edit(&mut self)
        ensures
            old(self)@.has_chosen() ==> final(self)@ == (AppView {
                editing_index: None,
                ..old(self)@
            }),
            !old(self)@.has_chosen() ==> final(self)@ == old(self)@,
    {
        if self.languages.contains_key(self.selected_group.as_str()) {
            self.editing_index = None;
        }
    }

    /// Deletes version `idx` of the chosen group. An edit of that version
    /// ends. Nothing happens where there is no such version. `time` is the
    /// time of day for the history.
    pub fn delete_version(&mut self, idx: usize, time: String)
        ensures
            idx >= old(self)@.chosen().len() ==> final(self)@ == old(self)@,
            idx < old(self)@.chosen().len() ==> final(self)@ == (AppView {
                editing_index: edit_after_deletion(old(self)@.editing_index, idx),
                ..old(self)@.with_chosen(old(self)@.chosen().remove(idx as int)).with_entry(
                    time@,
                    deleted_message(old(self)@.chosen()[idx as int]),
                )
            }),
    {
        match self.languages.remove_version(self.selected_group.as_str(), idx) {
            Some(entry) => {
                let mut message = framed("Deleted: ", entry.alias.as_str(), " (");
                message.append(entry.path.as_str());
                message.append(")");
                self.add_to_history(time, message);
                match self.editing_index {
                    Some(editing) => {
                        if editing == idx {
                            self.editing_index = None;
                        }
                    },
                    None => {},
                }
            },
            None => {},
        }
    }

    /// Shows the cleaner if it is hidden and hides it if it is shown. Says
    /// whether it is shown now.
    pub fn toggle_cleaner(&mut self) -> (shown: bool)
        ensures
            shown == !old(self)@.show_cleaner_window,
            final(self)@ == (AppView { show_cleaner_window: shown, ..old(self)@ }),
    {
        self.show_cleaner_window = !self.show_cleaner_window;
        self.show_cleaner_window
    }

    /// Whether a search is on: the search text has a lower-case form that is
    /// not empty.
    pub fn has_filter(&self) -> (on: bool)
        ensures
            on == (lowercase(self@.search_query).len() > 0),
    {
        let query = to_lowercase(self.search_query.as_str());
        query.as_str().unicode_len() > 0
    }

    /// Whether `entry` is shown under the search text: always where no
    /// search is on, else where the lower-case form of its alias or of its
    /// path holds the lower-case form of the search text.
    pub fn is_listed(&self, entry: &VersionEntry) -> (shown: bool)
        ensures
            shown == passes(
                lowercase(self@.search_query),
                lowercase(entry@.alias),
                lowercase(entry@.path),
            ),
    {
        let query = to_lowercase(self.search_query.as_str());
        let alias = to_lowercase(entry.alias.as_str());
        let path = to_lowercase(entry.path.as_str());
        passes_filter(query.as_str(), alias.as_str(), path.as_str())
    }
}

} // verus!
