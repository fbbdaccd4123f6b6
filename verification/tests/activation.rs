use version_switcher::activation::{activate, activate_list, is_managed_path};
use version_switcher::text::eq_ignore_ascii_case;

fn texts(parts: &[&str]) -> Vec<String> {
    parts.iter().map(|p| p.to_string()).collect()
}

#[test]
fn activate_replaces_the_paths_of_the_group() {
    let managed = texts(&["C:\\Old1", "C:\\Old2"]);
    assert_eq!(activate("C:\\Old1;C:\\Other;C:\\Old2", &managed, "C:\\New"), "C:\\New;C:\\Other");
}

#[test]
fn activate_puts_target_first() {
    let managed = texts(&["C:\\Py39", "C:\\Py311"]);
    let stored = activate("C:\\Windows;C:\\Py39;C:\\Git", &managed, "C:\\Py311");
    assert_eq!(stored, "C:\\Py311;C:\\Windows;C:\\Git");
}

#[test]
fn activate_leaves_no_managed_path_behind_the_target() {
    let managed = texts(&["c:\\a", "C:\\B"]);
    let stored = activate("C:\\A;x;c:\\b;y;C:\\a;C:\\B", &managed, "C:\\B");
    let parts: Vec<&str> = stored.split(';').collect();
    assert_eq!(parts[0], "C:\\B");
    for part in &parts[1..] {
        assert!(!managed.iter().any(|m| m.eq_ignore_ascii_case(part)), "{} is left", part);
    }
    assert_eq!(stored, "C:\\B;x;y");
}

#[test]
fn activate_twice_is_activate_once() {
    let managed = texts(&["C:\\Old1", "C:\\Old2", "C:\\New"]);
    let once = activate("C:\\Old1;C:\\Other;C:\\Old2", &managed, "C:\\New");
    let twice = activate(&once, &managed, "C:\\New");
    assert_eq!(once, "C:\\New;C:\\Other");
    assert_eq!(twice, once);
}

#[test]
fn activate_of_unmanaged_target_adds_it_again() {
    let managed = texts(&["C:\\Old"]);
    let once = activate("C:\\Other", &managed, "C:\\New");
    let twice = activate(&once, &managed, "C:\\New");
    assert_eq!(once, "C:\\New;C:\\Other");
    assert_eq!(twice, "C:\\New;C:\\New;C:\\Other");
}

#[test]
fn activate_ignores_ascii_case() {
    let managed = texts(&["C:\\Foo"]);
    assert_eq!(activate("c:\\foo;C:\\Bar;C:\\FOO", &managed, "C:\\Foo"), "C:\\Foo;C:\\Bar");
}

#[test]
fn activate_keeps_the_case_of_what_stays() {
    let managed = texts(&["C:\\Foo"]);
    assert_eq!(activate("C:\\BaR;c:\\bar", &managed, "C:\\Foo"), "C:\\Foo;C:\\BaR;c:\\bar");
}

#[test]
fn activate_does_not_fold_letters_beyond_ascii() {
    let managed = texts(&["C:\\Ärger"]);
    assert_eq!(activate("C:\\ärger;C:\\Ärger", &managed, "C:\\Ärger"), "C:\\Ärger;C:\\ärger");
}

#[test]
fn activate_takes_paths_literally() {
    let managed = texts(&["C:\\Tool"]);
    let stored = activate("C:\\Tool\\;C:/Tool;.\\Tool;C:\\Tool ", &managed, "C:\\Tool");
    assert_eq!(stored, "C:\\Tool;C:\\Tool\\;C:/Tool;.\\Tool;C:\\Tool ");
}

#[test]
fn activate_leaves_equal_path_of_no_group() {
    let managed: Vec<String> = Vec::new();
    assert_eq!(activate("C:\\New;C:\\X", &managed, "C:\\New"), "C:\\New;C:\\New;C:\\X");
}

#[test]
fn activate_on_empty_value() {
    let managed = texts(&["C:\\A"]);
    assert_eq!(activate("", &managed, "C:\\A"), "C:\\A");
}

#[test]
fn activate_drops_empty_segments() {
    let managed = texts(&["C:\\A"]);
    assert_eq!(activate(";;C:\\X;;C:\\a;", &managed, "C:\\A"), "C:\\A;C:\\X");
}

#[test]
fn activate_list_keeps_order_of_the_rest() {
    let current = texts(&["z", "M", "y", "m", "x"]);
    let managed = texts(&["m"]);
    assert_eq!(activate_list(&current, &managed, "m"), texts(&["m", "z", "y", "x"]));
}

#[test]
fn activate_list_twice_is_once_for_managed_target() {
    let current = texts(&["a", "B", "c"]);
    let managed = texts(&["b", "d"]);
    let once = activate_list(&current, &managed, "D");
    let twice = activate_list(&once, &managed, "D");
    assert_eq!(once, texts(&["D", "a", "c"]));
    assert_eq!(twice, once);
}

#[test]
fn is_managed_path_compares_without_ascii_case() {
    let managed = texts(&["C:\\Foo", "D:\\bar"]);
    assert!(is_managed_path("c:\\foo", &managed));
    assert!(is_managed_path("D:\\BAR", &managed));
    assert!(!is_managed_path("C:\\Foo\\", &managed));
    assert!(!is_managed_path("", &managed));
    assert!(!is_managed_path("x", &Vec::new()));
}

#[test]
fn eq_ignore_ascii_case_agrees_with_std() {
    let pairs = [
        ("", ""),
        ("a", "A"),
        ("abc", "ABD"),
        ("abc", "ab"),
        ("C:\\Foo", "c:\\fOO"),
        ("ä", "Ä"),
        ("straße", "STRASSE"),
        ("[", "{"),
        ("@", "`"),
        ("Z", "z"),
        ("日本", "日本"),
    ];
    for (a, b) in pairs {
        assert_eq!(eq_ignore_ascii_case(a, b), a.eq_ignore_ascii_case(b), "{:?} {:?}", a, b);
    }
}
