use version_switcher::editing::passes_filter;
use version_switcher::language::Language;
use version_switcher::state::VersionSwitcherApp;
use version_switcher::types::VersionEntry;

fn now() -> String {
    "12:30:05".to_string()
}

fn entry(path: &str, alias: &str) -> VersionEntry {
    VersionEntry { path: path.to_string(), alias: alias.to_string() }
}

fn aliases(app: &VersionSwitcherApp, group: &str) -> Vec<String> {
    app.languages.versions(group).iter().map(|v| v.alias.clone()).collect()
}

fn app_with_python() -> VersionSwitcherApp {
    let mut app = VersionSwitcherApp::default();
    app.languages.insert(
        "Python",
        vec![entry("C:\\Py39", "3.9"), entry("C:\\Py311", "3.11"), entry("C:\\Py312", "3.12")],
    );
    app.languages.insert("Node", vec![entry("C:\\Node18", "18")]);
    app.selected_group = "Python".to_string();
    app.app_language = Language::English;
    app
}

#[test]
fn create_group_makes_and_chooses_it() {
    let mut app = app_with_python();
    app.new_group_name = "Go".to_string();
    app.create_group(now());
    assert_eq!(app.languages.names(), vec!["Python", "Node", "Go"]);
    assert_eq!(app.selected_group, "Go");
    assert_eq!(app.new_group_name, "");
    assert_eq!(app.history[0].message, "Created Group: Go");
    assert_eq!(app.history[0].time, "12:30:05");
}

#[test]
fn create_group_that_exists_keeps_its_versions() {
    let mut app = app_with_python();
    app.new_group_name = "Node".to_string();
    app.create_group(now());
    assert_eq!(app.languages.names(), vec!["Python", "Node"]);
    assert_eq!(app.languages.version_count("Node"), 1);
    assert_eq!(app.selected_group, "Node");
    assert_eq!(app.history[0].message, "Created Group: Node");
}

#[test]
fn create_group_without_name_does_nothing() {
    let mut app = app_with_python();
    app.create_group(now());
    assert_eq!(app.languages.names(), vec!["Python", "Node"]);
    assert_eq!(app.selected_group, "Python");
    assert!(app.history.is_empty());
}

#[test]
fn delete_group_chooses_the_first_that_is_left() {
    let mut app = app_with_python();
    app.delete_group(now());
    assert_eq!(app.languages.names(), vec!["Node"]);
    assert_eq!(app.selected_group, "Node");
    assert_eq!(app.history[0].message, "Deleted Group: Python");
}

#[test]
fn delete_last_group_makes_general() {
    let mut app = app_with_python();
    app.delete_group(now());
    app.delete_group(now());
    assert_eq!(app.languages.names(), vec!["General"]);
    assert_eq!(app.languages.version_count("General"), 0);
    assert_eq!(app.selected_group, "General");
    assert_eq!(app.history[0].message, "Deleted Group: Node");
}

#[test]
fn delete_group_that_does_not_exist_chooses_the_first() {
    let mut app = app_with_python();
    app.selected_group = "Ruby".to_string();
    app.delete_group(now());
    assert_eq!(app.languages.names(), vec!["Python", "Node"]);
    assert_eq!(app.selected_group, "Python");
    assert_eq!(app.history[0].message, "Deleted Group: Ruby");
}

#[test]
fn add_version_adds_at_the_end_and_empties_the_fields() {
    let mut app = app_with_python();
    app.new_path_input = "C:\\Py313".to_string();
    app.new_alias_input = "3.13".to_string();
    app.add_version(now());
    assert_eq!(aliases(&app, "Python"), vec!["3.9", "3.11", "3.12", "3.13"]);
    assert_eq!(app.languages.paths("Python")[3], "C:\\Py313");
    assert_eq!(app.new_path_input, "");
    assert_eq!(app.new_alias_input, "");
    assert_eq!(app.history[0].message, "Added: 3.13 -> Python");
}

#[test]
fn add_version_without_alias_is_unnamed() {
    let mut app = app_with_python();
    app.new_path_input = "C:\\Py".to_string();
    app.add_version(now());
    assert_eq!(aliases(&app, "Python"), vec!["3.9", "3.11", "3.12", "Unbenannt"]);
    assert_eq!(app.history[0].message, "Added: Unbenannt -> Python");
}

#[test]
fn add_version_without_path_does_nothing() {
    let mut app = app_with_python();
    app.new_alias_input = "3.13".to_string();
    app.add_version(now());
    assert_eq!(app.languages.version_count("Python"), 3);
    assert_eq!(app.new_alias_input, "3.13");
    assert!(app.history.is_empty());
}

#[test]
fn add_version_to_unknown_group_does_nothing() {
    let mut app = app_with_python();
    app.selected_group = "Ruby".to_string();
    app.new_path_input = "C:\\Ruby".to_string();
    app.add_version(now());
    assert!(!app.languages.contains_key("Ruby"));
    assert_eq!(app.new_path_input, "C:\\Ruby");
    assert!(app.history.is_empty());
}

#[test]
fn move_up_and_down_exchange_neighbours() {
    let mut app = app_with_python();
    app.move_up(2);
    assert_eq!(aliases(&app, "Python"), vec!["3.9", "3.12", "3.11"]);
    app.move_down(0);
    assert_eq!(aliases(&app, "Python"), vec!["3.12", "3.9", "3.11"]);
    assert!(app.history.is_empty());
}

#[test]
fn move_beyond_the_ends_does_nothing() {
    let mut app = app_with_python();
    app.move_up(0);
    app.move_down(2);
    app.move_up(3);
    app.move_down(3);
    app.move_down(usize::MAX);
    assert_eq!(aliases(&app, "Python"), vec!["3.9", "3.11", "3.12"]);
}

#[test]
fn start_edit_fills_the_edit_fields() {
    let mut app = app_with_python();
    app.start_edit(1);
    assert_eq!(app.editing_index, Some(1));
    assert_eq!(app.edit_name_buffer, "3.11");
    assert_eq!(app.edit_path_buffer, "C:\\Py311");
    app.start_edit(7);
    assert_eq!(app.editing_index, Some(1));
}

#[test]
fn save_edit_keeps_the_edit_fields() {
    let mut app = app_with_python();
    app.start_edit(1);
    app.edit_name_buffer = "three-eleven".to_string();
    app.edit_path_buffer = "D:\\Py311".to_string();
    app.save_edit(1, now());
    assert_eq!(app.editing_index, None);
    assert_eq!(aliases(&app, "Python"), vec!["3.9", "three-eleven", "3.12"]);
    assert_eq!(app.languages.paths("Python"), vec!["C:\\Py39", "D:\\Py311", "C:\\Py312"]);
    assert_eq!(app.history[0].message, "Edited: 3.11 -> three-eleven");
}

#[test]
fn save_edit_of_no_version_only_ends_the_edit() {
    let mut app = app_with_python();
    app.start_edit(1);
    app.save_edit(9, now());
    assert_eq!(app.editing_index, None);
    assert_eq!(aliases(&app, "Python"), vec!["3.9", "3.11", "3.12"]);
    assert!(app.history.is_empty());
}

#[test]
fn cancel_edit_ends_the_edit() {
    let mut app = app_with_python();
    app.start_edit(2);
    app.edit_name_buffer = "x".to_string();
    app.cancel_edit();
    assert_eq!(app.editing_index, None);
    assert_eq!(aliases(&app, "Python"), vec!["3.9", "3.11", "3.12"]);
}

#[test]
fn edit_of_unknown_group_stays_as_it_is() {
    let mut app = app_with_python();
    app.start_edit(0);
    app.selected_group = "Ruby".to_string();
    app.save_edit(0, now());
    assert_eq!(app.editing_index, Some(0));
    app.cancel_edit();
    assert_eq!(app.editing_index, Some(0));
}

#[test]
fn delete_version_takes_it_out() {
    let mut app = app_with_python();
    app.start_edit(1);
    app.delete_version(1, now());
    assert_eq!(aliases(&app, "Python"), vec!["3.9", "3.12"]);
    assert_eq!(app.editing_index, None);
    assert_eq!(app.history[0].message, "Deleted: 3.11 (C:\\Py311)");
}

#[test]
fn delete_version_keeps_the_edit_of_another() {
    let mut app = app_with_python();
    app.start_edit(0);
    app.delete_version(2, now());
    assert_eq!(aliases(&app, "Python"), vec!["3.9", "3.11"]);
    assert_eq!(app.editing_index, Some(0));
}

#[test]
fn delete_version_that_is_not_there_does_nothing() {
    let mut app = app_with_python();
    app.delete_version(3, now());
    assert_eq!(aliases(&app, "Python"), vec!["3.9", "3.11", "3.12"]);
    assert!(app.history.is_empty());
}

#[test]
fn toggle_cleaner_shows_and_hides() {
    let mut app = app_with_python();
    assert!(app.toggle_cleaner());
    assert!(app.show_cleaner_window);
    assert!(!app.toggle_cleaner());
    assert!(!app.show_cleaner_window);
}

#[test]
fn search_compares_in_lower_case() {
    let mut app = app_with_python();
    assert!(!app.has_filter());
    assert!(app.is_listed(&entry("C:\\Py39", "3.9")));
    app.search_query = "PY3".to_string();
    assert!(app.has_filter());
    assert!(app.is_listed(&entry("C:\\Py39", "3.9")));
    assert!(app.is_listed(&entry("C:\\x", "cpython")) == false);
    assert!(app.is_listed(&entry("C:\\x", "my py3")));
    assert!(!app.is_listed(&entry("C:\\Node18", "18")));
    app.search_query = "ÄL".to_string();
    assert!(app.is_listed(&entry("C:\\x", "Sälen")));
}

#[test]
fn passes_filter_compares_as_given() {
    assert!(passes_filter("", "alias", "path"));
    assert!(passes_filter("lia", "alias", "path"));
    assert!(passes_filter("at", "alias", "path"));
    assert!(!passes_filter("AT", "alias", "path"));
    assert!(!passes_filter("x", "alias", "path"));
    assert!(!passes_filter("x", "", ""));
}

#[test]
fn use_folder_fills_path_and_empty_alias() {
    let mut app = app_with_python();
    app.use_folder("C:\\Tools\\Py313".to_string(), Some("Py313".to_string()));
    assert_eq!(app.new_path_input, "C:\\Tools\\Py313");
    assert_eq!(app.new_alias_input, "Py313");
    app.use_folder("D:\\Other".to_string(), Some("Other".to_string()));
    assert_eq!(app.new_path_input, "D:\\Other");
    assert_eq!(app.new_alias_input, "Py313");
}

#[test]
fn use_folder_without_name_leaves_alias_empty() {
    let mut app = app_with_python();
    app.use_folder("C:\\".to_string(), None);
    assert_eq!(app.new_path_input, "C:\\");
    assert_eq!(app.new_alias_input, "");
}
