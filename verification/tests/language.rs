use version_switcher::language::Language;

#[test]
fn labels_in_english() {
    let l = Language::English;
    assert_eq!(l.label_app_language(), "App Language:");
    assert_eq!(l.label_group_select(), "Group:");
    assert_eq!(l.tooltip_new_group(), "Name for new group (e.g. Python)");
    assert_eq!(l.btn_new_group(), "New Group");
    assert_eq!(l.tooltip_delete_group(), "Delete current group");
    assert_eq!(l.label_name(), "Name:");
    assert_eq!(l.label_path(), "Path:");
    assert_eq!(l.hint_name(), "v1.0");
    assert_eq!(l.hint_path(), "C:\\Program Files\\... (or drag & drop folder)");
    assert_eq!(l.tooltip_folder(), "Select folder...");
    assert_eq!(l.status_path_ok(), "Path exists");
    assert_eq!(l.status_path_missing(), "Path not found");
    assert_eq!(l.btn_add(), "Add");
    assert_eq!(l.header_available(), "Available Versions");
}

#[test]
fn labels_in_german() {
    let l = Language::German;
    assert_eq!(l.label_app_language(), "App Sprache:");
    assert_eq!(l.label_group_select(), "Gruppe:");
    assert_eq!(l.tooltip_new_group(), "Name für neue Gruppe (z.B. Python)");
    assert_eq!(l.btn_new_group(), "Neue Gruppe");
    assert_eq!(l.tooltip_delete_group(), "Aktuelle Gruppe löschen");
    assert_eq!(l.label_name(), "Name:");
    assert_eq!(l.label_path(), "Pfad:");
    assert_eq!(l.hint_name(), "v1.0");
    assert_eq!(l.hint_path(), "C:\\Programme\\... (oder Ordner hierher ziehen)");
    assert_eq!(l.tooltip_folder(), "Ordner auswählen...");
    assert_eq!(l.status_path_ok(), "Pfad existiert");
    assert_eq!(l.status_path_missing(), "Pfad nicht gefunden");
    assert_eq!(l.btn_add(), "Hinzufügen");
    assert_eq!(l.header_available(), "Verfügbare Versionen");
}

#[test]
fn version_list_texts_in_english() {
    let l = Language::English;
    assert_eq!(l.tooltip_delete(), "Remove");
    assert_eq!(l.tooltip_edit(), "Edit");
    assert_eq!(l.tooltip_save(), "Save changes");
    assert_eq!(l.tooltip_cancel(), "Cancel");
    assert_eq!(l.tooltip_move_up(), "Move up");
    assert_eq!(l.tooltip_move_down(), "Move down");
    assert_eq!(l.tooltip_missing_folder(), "Folder not found on disk!");
    assert_eq!(l.btn_activate(), "Activate");
    assert_eq!(l.btn_is_active(), "Active");
    assert_eq!(l.notify_title(), "Environment Switched");
    assert_eq!(l.status_ready(), "Ready.");
}

#[test]
fn version_list_texts_in_german() {
    let l = Language::German;
    assert_eq!(l.tooltip_delete(), "Entfernen");
    assert_eq!(l.tooltip_edit(), "Bearbeiten");
    assert_eq!(l.tooltip_save(), "Änderungen speichern");
    assert_eq!(l.tooltip_cancel(), "Abbrechen");
    assert_eq!(l.tooltip_move_up(), "Nach oben");
    assert_eq!(l.tooltip_move_down(), "Nach unten");
    assert_eq!(l.tooltip_missing_folder(), "Ordner auf Festplatte nicht gefunden!");
    assert_eq!(l.btn_activate(), "Aktivieren");
    assert_eq!(l.btn_is_active(), "Ist Aktiv");
    assert_eq!(l.notify_title(), "Version gewechselt");
    assert_eq!(l.status_ready(), "Bereit.");
}

#[test]
fn tool_texts_in_english() {
    let l = Language::English;
    assert_eq!(l.tooltip_import(), "Import configuration");
    assert_eq!(l.tooltip_export(), "Export configuration");
    assert_eq!(l.status_import_ok(), "Configuration imported successfully.");
    assert_eq!(l.status_export_ok(), "Configuration exported successfully.");
    assert_eq!(l.tooltip_cleaner(), "Path Cleaner");
    assert_eq!(l.window_cleaner_title(), "System Path Cleaner");
    assert_eq!(l.btn_scan(), "Scan Path Now");
    assert_eq!(l.label_no_issues(), "No issues found.");
    assert_eq!(l.btn_clean_selected(), "Clean Selected");
    assert_eq!(l.issue_missing(), "Missing");
    assert_eq!(l.issue_duplicate(), "Duplicate");
    assert_eq!(l.tooltip_accent_color(), "Change accent color");
    assert_eq!(l.tooltip_history(), "Activity History");
    assert_eq!(l.window_history_title(), "Activity History");
    assert_eq!(l.btn_clear_history(), "Clear History");
    assert_eq!(l.label_no_history(), "No activity recorded yet.");
}

#[test]
fn tool_texts_in_german() {
    let l = Language::German;
    assert_eq!(l.tooltip_import(), "Konfiguration importieren");
    assert_eq!(l.tooltip_export(), "Konfiguration exportieren");
    assert_eq!(l.status_import_ok(), "Konfiguration erfolgreich importiert.");
    assert_eq!(l.status_export_ok(), "Konfiguration erfolgreich exportiert.");
    assert_eq!(l.tooltip_cleaner(), "Pfad-Bereinigung");
    assert_eq!(l.window_cleaner_title(), "System-Pfad Bereinigung");
    assert_eq!(l.btn_scan(), "Pfad jetzt scannen");
    assert_eq!(l.label_no_issues(), "Keine Probleme gefunden.");
    assert_eq!(l.btn_clean_selected(), "Ausgewählte bereinigen");
    assert_eq!(l.issue_missing(), "Fehlt");
    assert_eq!(l.issue_duplicate(), "Duplikat");
    assert_eq!(l.tooltip_accent_color(), "Akzentfarbe ändern");
    assert_eq!(l.tooltip_history(), "Aktivitäts-Verlauf");
    assert_eq!(l.window_history_title(), "Aktivitäts-Verlauf");
    assert_eq!(l.btn_clear_history(), "Verlauf leeren");
    assert_eq!(l.label_no_history(), "Noch keine Aktivitäten aufgezeichnet.");
}

#[test]
fn texts_with_a_name_in_them() {
    assert_eq!(Language::English.header_add_version("Python"), "Add new Python version");
    assert_eq!(Language::German.header_add_version("Python"), "Neue Python Version hinzufügen");
    assert_eq!(Language::English.notify_body("3.11"), "3.11 is now active.");
    assert_eq!(Language::German.notify_body("3.11"), "3.11 ist jetzt aktiv.");
    assert_eq!(Language::English.status_activated("C:\\Py"), "Activated: C:\\Py");
    assert_eq!(Language::German.status_activated("C:\\Py"), "Aktiviert: C:\\Py");
    assert_eq!(Language::English.header_add_version(""), "Add new  version");
}

#[test]
fn texts_with_an_error_in_them() {
    assert_eq!(Language::English.status_error("denied"), "Error/Fehler: denied");
    assert_eq!(Language::German.status_error("denied"), "Error/Fehler: denied");
    assert_eq!(Language::English.status_import_err("bad"), "Import Error: bad");
    assert_eq!(Language::German.status_import_err("bad"), "Import Fehler: bad");
    assert_eq!(Language::English.status_export_err("full"), "Export Error: full");
    assert_eq!(Language::German.status_export_err("full"), "Export Fehler: full");
}

#[test]
fn status_cleaned_writes_the_count() {
    assert_eq!(Language::English.status_cleaned(0), "Removed 0 entries.");
    assert_eq!(Language::English.status_cleaned(2), "Removed 2 entries.");
    assert_eq!(Language::English.status_cleaned(1234), "Removed 1234 entries.");
    assert_eq!(Language::German.status_cleaned(2), "2 Einträge entfernt.");
    assert_eq!(Language::German.status_cleaned(10), "10 Einträge entfernt.");
}

#[test]
fn languages_compare() {
    assert_eq!(Language::English, Language::English);
    assert_ne!(Language::English, Language::German);
    let copy = Language::German;
    assert_eq!(copy, Language::German);
}
