use version_switcher::groups::Groups;
use version_switcher::types::VersionEntry;

fn entry(path: &str, alias: &str) -> VersionEntry {
    VersionEntry { path: path.to_string(), alias: alias.to_string() }
}

fn shown(groups: &Groups, name: &str) -> Vec<(String, String)> {
    groups.versions(name).iter().map(|v| (v.path.clone(), v.alias.clone())).collect()
}

fn pair(path: &str, alias: &str) -> (String, String) {
    (path.to_string(), alias.to_string())
}

fn sample() -> Groups {
    let mut groups = Groups::new();
    groups.insert("Python", vec![entry("C:\\Py39", "3.9"), entry("C:\\Py311", "3.11"), entry("C:\\Py312", "3.12")]);
    groups.insert("Node", vec![entry("C:\\Node18", "18")]);
    groups
}

#[test]
fn new_groups_are_empty() {
    let groups = Groups::new();
    assert_eq!(groups.len(), 0);
    assert_eq!(groups.names(), Vec::<String>::new());
    assert_eq!(groups.first_name(), None);
    assert!(!groups.contains_key("General"));
}

#[test]
fn missing_group_has_no_versions() {
    let groups = sample();
    assert!(groups.versions("Ruby").is_empty());
    assert!(groups.paths("Ruby").is_empty());
    assert_eq!(groups.version_count("Ruby"), 0);
}

#[test]
fn insert_keeps_order_of_groups_and_versions() {
    let groups = sample();
    assert_eq!(groups.len(), 2);
    assert_eq!(groups.names(), vec!["Python".to_string(), "Node".to_string()]);
    assert_eq!(groups.first_name(), Some("Python".to_string()));
    assert_eq!(
        shown(&groups, "Python"),
        vec![pair("C:\\Py39", "3.9"), pair("C:\\Py311", "3.11"), pair("C:\\Py312", "3.12")]
    );
    assert_eq!(groups.paths("Python"), vec!["C:\\Py39", "C:\\Py311", "C:\\Py312"]);
    assert_eq!(groups.version_count("Python"), 3);
}

#[test]
fn insert_under_a_known_name_replaces_the_versions() {
    let mut groups = sample();
    groups.insert("Python", vec![entry("D:\\Py", "new")]);
    assert_eq!(groups.names(), vec!["Python".to_string(), "Node".to_string()]);
    assert_eq!(shown(&groups, "Python"), vec![pair("D:\\Py", "new")]);
    assert_eq!(shown(&groups, "Node"), vec![pair("C:\\Node18", "18")]);
}

#[test]
fn group_names_are_compared_exactly() {
    let groups = sample();
    assert!(groups.contains_key("Python"));
    assert!(!groups.contains_key("python"));
    assert!(!groups.contains_key("Python "));
}

#[test]
fn ensure_makes_a_group_once() {
    let mut groups = sample();
    assert!(groups.ensure("Go"));
    assert!(!groups.ensure("Go"));
    assert!(!groups.ensure("Python"));
    assert_eq!(groups.names(), vec!["Python".to_string(), "Node".to_string(), "Go".to_string()]);
    assert!(groups.versions("Go").is_empty());
    assert_eq!(groups.version_count("Python"), 3);
}

#[test]
fn remove_takes_one_group_away() {
    let mut groups = sample();
    assert!(groups.remove("Python"));
    assert!(!groups.remove("Python"));
    assert_eq!(groups.names(), vec!["Node".to_string()]);
    assert!(groups.versions("Python").is_empty());
    assert_eq!(shown(&groups, "Node"), vec![pair("C:\\Node18", "18")]);
}

#[test]
fn push_version_adds_at_the_end() {
    let mut groups = sample();
    assert!(groups.push_version("Node", entry("C:\\Node20", "20")));
    assert!(groups.push_version("Node", entry("C:\\Node20", "20")));
    assert!(!groups.push_version("Ruby", entry("C:\\Ruby", "3")));
    assert_eq!(
        shown(&groups, "Node"),
        vec![pair("C:\\Node18", "18"), pair("C:\\Node20", "20"), pair("C:\\Node20", "20")]
    );
    assert!(!groups.contains_key("Ruby"));
}

#[test]
fn swap_versions_exchanges_two_places() {
    let mut groups = sample();
    assert!(groups.swap_versions("Python", 0, 2));
    assert_eq!(
        shown(&groups, "Python"),
        vec![pair("C:\\Py312", "3.12"), pair("C:\\Py311", "3.11"), pair("C:\\Py39", "3.9")]
    );
    assert!(groups.swap_versions("Python", 1, 1));
    assert!(!groups.swap_versions("Python", 0, 3));
    assert!(!groups.swap_versions("Python", 3, 0));
    assert!(!groups.swap_versions("Ruby", 0, 0));
    assert_eq!(
        shown(&groups, "Python"),
        vec![pair("C:\\Py312", "3.12"), pair("C:\\Py311", "3.11"), pair("C:\\Py39", "3.9")]
    );
}

#[test]
fn set_version_replaces_one_place() {
    let mut groups = sample();
    assert!(groups.set_version("Python", 1, entry("D:\\Py", "d")));
    assert!(!groups.set_version("Python", 3, entry("E:\\Py", "e")));
    assert!(!groups.set_version("Ruby", 0, entry("E:\\Py", "e")));
    assert_eq!(
        shown(&groups, "Python"),
        vec![pair("C:\\Py39", "3.9"), pair("D:\\Py", "d"), pair("C:\\Py312", "3.12")]
    );
}

#[test]
fn remove_version_gives_the_entry_back() {
    let mut groups = sample();
    let taken = groups.remove_version("Python", 1);
    assert_eq!(taken.map(|v| (v.path, v.alias)), Some(pair("C:\\Py311", "3.11")));
    assert!(groups.remove_version("Python", 2).is_none());
    assert!(groups.remove_version("Ruby", 0).is_none());
    assert_eq!(shown(&groups, "Python"), vec![pair("C:\\Py39", "3.9"), pair("C:\\Py312", "3.12")]);
}

#[test]
fn version_entry_clone_keeps_the_fields() {
    let copy = entry("C:\\A", "a").clone();
    assert_eq!(copy.path, "C:\\A");
    assert_eq!(copy.alias, "a");
}
