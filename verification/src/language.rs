//! The texts of the user interface, in each language it speaks.

use vstd::prelude::*;
use crate::text::{decimal, decimal_text, framed, glued};

verus! {

/// The languages of the user interface.
#[derive(Clone, Copy, Debug, PartialEq, Eq, Structural)]
pub enum Language {
    English,
    German,
}

/// The text for `language` out of the two that are offered.
pub open spec fn pick(language: Language, english: Seq<char>, german: Seq<char>) -> Seq<char> {
    match language {
        Language::English => english,
        Language::German => german,
    }
}

impl Language {
    /// The text of [`Language::label_app_language`].
    pub open spec fn label_app_language_text(self) -> Seq<char> {
        pick(self, "App Language:"@, "App Sprache:"@)
    }

    /// Label of the choice of the language.
    pub fn label_app_language(&self) -> (text: &str)
        ensures
            text@ == self.label_app_language_text(),
    {
        match self {
            Language::English => "App Language:",
            Language::German => "App Sprache:",
        }
    }

    /// The text of [`Language::label_group_select`].
    pub open spec fn label_group_select_text(self) -> Seq<char> {
        pick(self, "Group:"@, "Gruppe:"@)
    }

    /// Label of the choice of the group.
    pub fn label_group_select(&self) -> (text: &str)
        ensures
            text@ == self.label_group_select_text(),
    {
        match self {
            Language::English => "Group:",
            Language::German => "Gruppe:",
        }
    }

    /// The text of [`Language::tooltip_new_group`].
    pub open spec fn tooltip_new_group_text(self) -> Seq<char> {
        pick(self, "Name for new group (e.g. Python)"@, "Name für neue Gruppe (z.B. Python)"@)
    }

    /// Hint on the field for the name of a new group.
    pub fn tooltip_new_group(&self) -> (text: &str)
        ensures
            text@ == self.tooltip_new_group_text(),
    {
        match self {
            Language::English => "Name for new group (e.g. Python)",
            Language::German => "Name für neue Gruppe (z.B. Python)",
        }
    }

    /// The text of [`Language::btn_new_group`].
    pub open spec fn btn_new_group_text(self) -> Seq<char> {
        pick(self, "New Group"@, "Neue Gruppe"@)
    }

    /// Caption of the button that makes a new group.
    pub fn btn_new_group(&self) -> (text: &str)
        ensures
            text@ == self.btn_new_group_text(),
    {
        match self {
            Language::English => "New Group",
            Language::German => "Neue Gruppe",
        }
    }

    /// The text of [`Language::tooltip_delete_group`].
    pub open spec fn tooltip_delete_group_text(self) -> Seq<char> {
        pick(self, "Delete current group"@, "Aktuelle Gruppe löschen"@)
    }

    /// Hint on the button that deletes the chosen group.
    pub fn tooltip_delete_group(&self) -> (text: &str)
        ensures
            text@ == self.tooltip_delete_group_text(),
    {
        match self {
            Language::English => "Delete current group",
            Language::German => "Aktuelle Gruppe löschen",
        }
    }

    /// The text of [`Language::header_add_version`].
    pub open spec fn header_add_version_text(self, group: Seq<char>) -> Seq<char> {
        pick(self, "Add new "@ + group + " version"@, "Neue "@ + group + " Version hinzufügen"@)
    }

    /// Heading of the form that adds a version to `group`.
    pub fn header_add_version(&self, group: &str) -> (text: String)
        ensures
            text@ == self.header_add_version_text(group@),
    {
        match self {
            Language::English => framed("Add new ", group, " version"),
            Language::German => framed("Neue ", group, " Version hinzufügen"),
        }
    }

    /// The text of [`Language::label_name`].
    pub open spec fn label_name_text(self) -> Seq<char> {
        pick(self, "Name:"@, "Name:"@)
    }

    /// Label of the field for the name of a version.
    pub fn label_name(&self) -> (text: &str)
        ensures
            text@ == self.label_name_text(),
    {
        match self {
            Language::English => "Name:",
            Language::German => "Name:",
        }
    }

    /// The text of [`Language::label_path`].
    pub open spec fn label_path_text(self) -> Seq<char> {
        pick(self, "Path:"@, "Pfad:"@)
    }

    /// Label of the field for the path of a version.
    pub fn label_path(&self) -> (text: &str)
        ensures
            text@ == self.label_path_text(),
    {
        match self {
            Language::English => "Path:",
            Language::German => "Pfad:",
        }
    }

    /// The text of [`Language::hint_name`].
    pub open spec fn hint_name_text(self) -> Seq<char> {
        "v1.0"@
    }

    /// Example shown in the empty name field. It is the same in every language.
    pub fn hint_name(&self) -> (text: &str)
        ensures
            text@ == self.hint_name_text(),
    {
        "v1.0"
    }

    /// The text of [`Language::hint_path`].
    pub open spec fn hint_path_text(self) -> Seq<char> {
        pick(
            self,
            "C:\\Program Files\\... (or drag & drop folder)"@,
            "C:\\Programme\\... (oder Ordner hierher ziehen)"@,
        )
    }

    /// Example shown in the empty path field.
    pub fn hint_path(&self) -> (text: &str)
        ensures
            text@ == self.hint_path_text(),
    {
        match self {
            Language::English => "C:\\Program Files\\... (or drag & drop folder)",
            Language::German => "C:\\Programme\\... (oder Ordner hierher ziehen)",
        }
    }

    /// The text of [`Language::tooltip_folder`].
    pub open spec fn tooltip_folder_text(self) -> Seq<char> {
        pick(self, "Select folder..."@, "Ordner auswählen..."@)
    }

    /// Hint on the button that opens the folder dialog.
    pub fn tooltip_folder(&self) -> (text: &str)
        ensures
            text@ == self.tooltip_folder_text(),
    {
        match self {
            Language::English => "Select folder...",
            Language::German => "Ordner auswählen...",
        }
    }

    /// The text of [`Language::status_path_ok`].
    pub open spec fn status_path_ok_text(self) -> Seq<char> {
        pick(self, "Path exists"@, "Pfad existiert"@)
    }

    /// Said of a path that exists.
    pub fn status_path_ok(&self) -> (text: &str)
        ensures
            text@ == self.status_path_ok_text(),
    {
        match self {
            Language::English => "Path exists",
            Language::German => "Pfad existiert",
        }
    }

    /// The text of [`Language::status_path_missing`].
    pub open spec fn status_path_missing_text(self) -> Seq<char> {
        pick(self, "Path not found"@, "Pfad nicht gefunden"@)
    }

    /// Said of a path that does not exist.
    pub fn status_path_missing(&self) -> (text: &str)
        ensures
            text@ == self.status_path_missing_text(),
    {
        match self {
            Language::English => "Path not found",
            Language::German => "Pfad nicht gefunden",
        }
    }

    /// The text of [`Language::btn_add`].
    pub open spec fn btn_add_text(self) -> Seq<char> {
        pick(self, "Add"@, "Hinzufügen"@)
    }

    /// Caption of the button that adds the version.
    pub fn btn_add(&self) -> (text: &str)
        ensures
            text@ == self.btn_add_text(),
    {
        match self {
            Language::English => "Add",
            Language::German => "Hinzufügen",
        }
    }

    /// The text of [`Language::header_available`].
    pub open spec fn header_available_text(self) -> Seq<char> {
        pick(self, "Available Versions"@, "Verfügbare Versionen"@)
    }

    /// Heading of the list of versions.
    pub fn header_available(&self) -> (text: &str)
        ensures
            text@ == self.header_available_text(),
    {
        match self {
            Language::English => "Available Versions",
            Language::German => "Verfügbare Versionen",
        }
    }

    /// The text of [`Language::tooltip_delete`].
    pub open spec fn tooltip_delete_text(self) -> Seq<char> {
        pick(self, "Remove"@, "Entfernen"@)
    }

    /// Hint on the button that removes a version.
    pub fn tooltip_delete(&self) -> (text: &str)
        ensures
            text@ == self.tooltip_delete_text(),
    {
        match self {
            Language::English => "Remove",
            Language::German => "Entfernen",
        }
    }

    /// The text of [`Language::tooltip_edit`].
    pub open spec fn tooltip_edit_text(self) -> Seq<char> {
        pick(self, "Edit"@, "Bearbeiten"@)
    }

    /// Hint on the button that edits a version.
    pub fn tooltip_edit(&self) -> (text: &str)
        ensures
            text@ == self.tooltip_edit_text(),
    {
        match self {
            Language::English => "Edit",
            Language::German => "Bearbeiten",
        }
    }

    /// The text of [`Language::tooltip_save`].
    pub open spec fn tooltip_save_text(self) -> Seq<char> {
        pick(self, "Save changes"@, "Änderungen speichern"@)
    }

    /// Hint on the button that saves an edit.
    pub fn tooltip_save(&self) -> (text: &str)
        ensures
            text@ == self.tooltip_save_text(),
    {
        match self {
            Language::English => "Save changes",
            Language::German => "Änderungen speichern",
        }
    }

    /// The text of [`Language::tooltip_cancel`].
    pub open spec fn tooltip_cancel_text(self) -> Seq<char> {
        pick(self, "Cancel"@, "Abbrechen"@)
    }

    /// Hint on the button that gives up an edit.
    pub fn tooltip_cancel(&self) -> (text: &str)
        ensures
            text@ == self.tooltip_cancel_text(),
    {
        match self {
            Language::English => "Cancel",
            Language::German => "Abbrechen",
        }
    }

    /// The text of [`Language::tooltip_move_up`].
    pub open spec fn tooltip_move_up_text(self) -> Seq<char> {
        pick(self, "Move up"@, "Nach oben"@)
    }

    /// Hint on the button that moves a version up.
    pub fn tooltip_move_up(&self) -> (text: &str)
        ensures
            text@ == self.tooltip_move_up_text(),
    {
        match self {
            Language::English => "Move up",
            Language::German => "Nach oben",
        }
    }

    /// The text of [`Language::tooltip_move_down`].
    pub open spec fn tooltip_move_down_text(self) -> Seq<char> {
        pick(self, "Move down"@, "Nach unten"@)
    }

    /// Hint on the button that moves a version down.
    pub fn tooltip_move_down(&self) -> (text: &str)
        ensures
            text@ == self.tooltip_move_down_text(),
    {
        match self {
            Language::English => "Move down",
            Language::German => "Nach unten",
        }
    }

    /// The text of [`Language::tooltip_missing_folder`].
    pub open spec fn tooltip_missing_folder_text(self) -> Seq<char> {
        pick(self, "Folder not found on disk!"@, "Ordner auf Festplatte nicht gefunden!"@)
    }

    /// Warning beside a version whose folder is gone.
    pub fn tooltip_missing_folder(&self) -> (text: &str)
        ensures
            text@ == self.tooltip_missing_folder_text(),
    {
        match self {
            Language::English => "Folder not found on disk!",
            Language::German => "Ordner auf Festplatte nicht gefunden!",
        }
    }

    /// The text of [`Language::btn_activate`].
    pub open spec fn btn_activate_text(self) -> Seq<char> {
        pick(self, "Activate"@, "Aktivieren"@)
    }

    /// Caption of the button that activates a version.
    pub fn btn_activate(&self) -> (text: &str)
        ensures
            text@ == self.btn_activate_text(),
    {
        match self {
            Language::English => "Activate",
            Language::German => "Aktivieren",
        }
    }

    /// The text of [`Language::btn_is_active`].
    pub open spec fn btn_is_active_text(self) -> Seq<char> {
        pick(self, "Active"@, "Ist Aktiv"@)
    }

    /// Caption of that button on the active version.
    pub fn btn_is_active(&self) -> (text: &str)
        ensures
            text@ == self.btn_is_active_text(),
    {
        match self {
            Language::English => "Active",
            Language::German => "Ist Aktiv",
        }
    }

    /// The text of [`Language::notify_title`].
    pub open spec fn notify_title_text(self) -> Seq<char> {
        pick(self, "Environment Switched"@, "Version gewechselt"@)
    }

    /// Title of the notification after an activation.
    pub fn notify_title(&self) -> (text: &str)
        ensures
            text@ == self.notify_title_text(),
    {
        match self {
            Language::English => "Environment Switched",
            Language::German => "Version gewechselt",
        }
    }

    /// The text of [`Language::notify_body`].
    pub open spec fn notify_body_text(self, alias: Seq<char>) -> Seq<char> {
        pick(self, alias + " is now active."@, alias + " ist jetzt aktiv."@)
    }

    /// Body of the notification after `alias` was activated.
    pub fn notify_body(&self, alias: &str) -> (text: String)
        ensures
            text@ == self.notify_body_text(alias@),
    {
        match self {
            Language::English => glued(alias, " is now active."),
            Language::German => glued(alias, " ist jetzt aktiv."),
        }
    }

    /// The text of [`Language::status_ready`].
    pub open spec fn status_ready_text(self) -> Seq<char> {
        pick(self, "Ready."@, "Bereit."@)
    }

    /// Status line while nothing has happened.
    pub fn status_ready(&self) -> (text: &str)
        ensures
            text@ == self.status_ready_text(),
    {
        match self {
            Language::English => "Ready.",
            Language::German => "Bereit.",
        }
    }

    /// The text of [`Language::status_activated`].
    pub open spec fn status_activated_text(self, path: Seq<char>) -> Seq<char> {
        pick(self, "Activated: "@ + path, "Aktiviert: "@ + path)
    }

    /// Status line after `path` was activated.
    pub fn status_activated(&self, path: &str) -> (text: String)
        ensures
            text@ == self.status_activated_text(path@),
    {
        match self {
            Language::English => glued("Activated: ", path),
            Language::German => glued("Aktiviert: ", path),
        }
    }

    /// The text of [`Language::status_error`].
    pub open spec fn status_error_text(self, err: Seq<char>) -> Seq<char> {
        "Error/Fehler: "@ + err
    }

    /// Status line for the error `err`. It is the same in every language.
    pub fn status_error(&self, err: &str) -> (text: String)
        ensures
            text@ == self.status_error_text(err@),
    {
        glued("Error/Fehler: ", err)
    }

    /// The text of [`Language::tooltip_import`].
    pub open spec fn tooltip_import_text(self) -> Seq<char> {
        pick(self, "Import configuration"@, "Konfiguration importieren"@)
    }

    /// Hint on the button that imports a configuration.
    pub fn tooltip_import(&self) -> (text: &str)
        ensures
            text@ == self.tooltip_import_text(),
    {
        match self {
            Language::English => "Import configuration",
            Language::German => "Konfiguration importieren",
        }
    }

    /// The text of [`Language::tooltip_export`].
    pub open spec fn tooltip_export_text(self) -> Seq<char> {
        pick(self, "Export configuration"@, "Konfiguration exportieren"@)
    }

    /// Hint on the button that exports the configuration.
    pub fn tooltip_export(&self) -> (text: &str)
        ensures
            text@ == self.tooltip_export_text(),
    {
        match self {
            Language::English => "Export configuration",
            Language::German => "Konfiguration exportieren",
        }
    }

    /// The text of [`Language::status_import_ok`].
    pub open spec fn status_import_ok_text(self) -> Seq<char> {
        pick(
            self,
            "Configuration imported successfully."@,
            "Konfiguration erfolgreich importiert."@,
        )
    }

    /// Status line after an import.
    pub fn status_import_ok(&self) -> (text: &str)
        ensures
            text@ == self.status_import_ok_text(),
    {
        match self {
            Language::English => "Configuration imported successfully.",
            Language::German => "Konfiguration erfolgreich importiert.",
        }
    }

    /// The text of [`Language::status_export_ok`].
    pub open spec fn status_export_ok_text(self) -> Seq<char> {
        pick(
            self,
            "Configuration exported successfully."@,
            "Konfiguration erfolgreich exportiert."@,
        )
    }

    /// Status line after an export.
    pub fn status_export_ok(&self) -> (text: &str)
        ensures
            text@ == self.status_export_ok_text(),
    {
        match self {
            Language::English => "Configuration exported successfully.",
            Language::German => "Konfiguration erfolgreich exportiert.",
        }
    }

    /// The text of [`Language::status_import_err`].
    pub open spec fn status_import_err_text(self, err: Seq<char>) -> Seq<char> {
        pick(self, "Import Error: "@ + err, "Import Fehler: "@ + err)
    }

    /// Status line after an import failed with `err`.
    pub fn status_import_err(&self, err: &str) -> (text: String)
        ensures
            text@ == self.status_import_err_text(err@),
    {
        match self {
            Language::English => glued("Import Error: ", err),
            Language::German => glued("Import Fehler: ", err),
        }
    }

    /// The text of [`Language::status_export_err`].
    pub open spec fn status_export_err_text(self, err: Seq<char>) -> Seq<char> {
        pick(self, "Export Error: "@ + err, "Export Fehler: "@ + err)
    }

    /// Status line after an export failed with `err`.
    pub fn status_export_err(&self, err: &str) -> (text: String)
        ensures
            text@ == self.status_export_err_text(err@),
    {
        match self {
            Language::English => glued("Export Error: ", err),
            Language::German => glued("Export Fehler: ", err),
        }
    }

    /// The text of [`Language::tooltip_cleaner`].
    pub open spec fn tooltip_cleaner_text(self) -> Seq<char> {
        pick(self, "Path Cleaner"@, "Pfad-Bereinigung"@)
    }

    /// Hint on the button that opens the cleaner.
    pub fn tooltip_cleaner(&self) -> (text: &str)
        ensures
            text@ == self.tooltip_cleaner_text(),
    {
        match self {
            Language::English => "Path Cleaner",
            Language::German => "Pfad-Bereinigung",
        }
    }

    /// The text of [`Language::window_cleaner_title`].
    pub open spec fn window_cleaner_title_text(self) -> Seq<char> {
        pick(self, "System Path Cleaner"@, "System-Pfad Bereinigung"@)
    }

    /// Title of the cleaner window.
    pub fn window_cleaner_title(&self) -> (text: &str)
        ensures
            text@ == self.window_cleaner_title_text(),
    {
        match self {
            Language::English => "System Path Cleaner",
            Language::German => "System-Pfad Bereinigung",
        }
    }

    /// The text of [`Language::btn_scan`].
    pub open spec fn btn_scan_text(self) -> Seq<char> {
        pick(self, "Scan Path Now"@, "Pfad jetzt scannen"@)
    }

    /// Caption of the button that scans the path list.
    pub fn btn_scan(&self) -> (text: &str)
        ensures
            text@ == self.btn_scan_text(),
    {
        match self {
            Language::English => "Scan Path Now",
            Language::German => "Pfad jetzt scannen",
        }
    }

    /// The text of [`Language::label_no_issues`].
    pub open spec fn label_no_issues_text(self) -> Seq<char> {
        pick(self, "No issues found."@, "Keine Probleme gefunden."@)
    }

    /// Shown where a scan found nothing.
    pub fn label_no_issues(&self) -> (text: &str)
        ensures
            text@ == self.label_no_issues_text(),
    {
        match self {
            Language::English => "No issues found.",
            Language::German => "Keine Probleme gefunden.",
        }
    }

    /// The text of [`Language::btn_clean_selected`].
    pub open spec fn btn_clean_selected_text(self) -> Seq<char> {
        pick(self, "Clean Selected"@, "Ausgewählte bereinigen"@)
    }

    /// Caption of the button that cleans the selected issues.
    pub fn btn_clean_selected(&self) -> (text: &str)
        ensures
            text@ == self.btn_clean_selected_text(),
    {
        match self {
            Language::English => "Clean Selected",
            Language::German => "Ausgewählte bereinigen",
        }
    }

    /// The text of [`Language::status_cleaned`].
    pub open spec fn status_cleaned_text(self, count: nat) -> Seq<char> {
        pick(
            self,
            "Removed "@ + decimal(count) + " entries."@,
            decimal(count) + " Einträge entfernt."@,
        )
    }

    /// Status line after a cleanup took out `count` entries.
    pub fn status_cleaned(&self, count: usize) -> (text: String)
        ensures
            text@ == self.status_cleaned_text(count as nat),
    {
        let number = decimal_text(count);
        match self {
            Language::English => framed("Removed ", number.as_str(), " entries."),
            Language::German => glued(number.as_str(), " Einträge entfernt."),
        }
    }

    /// The text of [`Language::issue_missing`].
    pub open spec fn issue_missing_text(self) -> Seq<char> {
        pick(self, "Missing"@, "Fehlt"@)
    }

    /// Name of the issue of a path that does not exist.
    pub fn issue_missing(&self) -> (text: &str)
        ensures
            text@ == self.issue_missing_text(),
    {
        match self {
            Language::English => "Missing",
            Language::German => "Fehlt",
        }
    }

    /// The text of [`Language::issue_duplicate`].
    pub open spec fn issue_duplicate_text(self) -> Seq<char> {
        pick(self, "Duplicate"@, "Duplikat"@)
    }

    /// Name of the issue of a repeated path.
    pub fn issue_duplicate(&self) -> (text: &str)
        ensures
            text@ == self.issue_duplicate_text(),
    {
        match self {
            Language::English => "Duplicate",
            Language::German => "Duplikat",
        }
    }

    /// The text of [`Language::tooltip_accent_color`].
    pub open spec fn tooltip_accent_color_text(self) -> Seq<char> {
        pick(self, "Change accent color"@, "Akzentfarbe ändern"@)
    }

    /// Hint on the colour picker.
    pub fn tooltip_accent_color(&self) -> (text: &str)
        ensures
            text@ == self.tooltip_accent_color_text(),
    {
        match self {
            Language::English => "Change accent color",
            Language::German => "Akzentfarbe ändern",
        }
    }

    /// The text of [`Language::tooltip_history`].
    pub open spec fn tooltip_history_text(self) -> Seq<char> {
        pick(self, "Activity History"@, "Aktivitäts-Verlauf"@)
    }

    /// Hint on the button that opens the history.
    pub fn tooltip_history(&self) -> (text: &str)
        ensures
            text@ == self.tooltip_history_text(),
    {
        match self {
            Language::English => "Activity History",
            Language::German => "Aktivitäts-Verlauf",
        }
    }

    /// The text of [`Language::window_history_title`].
    pub open spec fn window_history_title_text(self) -> Seq<char> {
        pick(self, "Activity History"@, "Aktivitäts-Verlauf"@)
    }

    /// Title of the history window.
    pub fn window_history_title(&self) -> (text: &str)
        ensures
            text@ == self.window_history_title_text(),
    {
        match self {
            Language::English => "Activity History",
            Language::German => "Aktivitäts-Verlauf",
        }
    }

    /// The text of [`Language::btn_clear_history`].
    pub open spec fn btn_clear_history_text(self) -> Seq<char> {
        pick(self, "Clear History"@, "Verlauf leeren"@)
    }

    /// Caption of the button that empties the history.
    pub fn btn_clear_history(&self) -> (text: &str)
        ensures
            text@ == self.btn_clear_history_text(),
    {
        match self {
            Language::English => "Clear History",
            Language::German => "Verlauf leeren",
        }
    }

    /// The text of [`Language::label_no_history`].
    pub open spec fn label_no_history_text(self) -> Seq<char> {
        pick(self, "No activity recorded yet."@, "Noch keine Aktivitäten aufgezeichnet."@)
    }

    /// Shown while the history is empty.
    pub fn label_no_history(&self) -> (text: &str)
        ensures
            text@ == self.label_no_history_text(),
    {
        match self {
            Language::English => "No activity recorded yet.",
            Language::German => "Noch keine Aktivitäten aufgezeichnet.",
        }
    }
}

} // verus!
