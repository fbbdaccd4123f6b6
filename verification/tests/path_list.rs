use version_switcher::path_list::{join_path_list, parse_path_list, SEPARATOR};

fn owned(parts: &[&str]) -> Vec<String> {
    parts.iter().map(|p| p.to_string()).collect()
}

#[test]
fn separator_is_semicolon() {
    assert_eq!(SEPARATOR, ';');
}

#[test]
fn parse_drops_empty_segments() {
    assert_eq!(parse_path_list("C:\\A;;C:\\B;"), owned(&["C:\\A", "C:\\B"]));
}

#[test]
fn parse_then_join_loses_empty_segments() {
    let parts = parse_path_list("C:\\A;;C:\\B;");
    assert_eq!(join_path_list(&parts), "C:\\A;C:\\B");
}

#[test]
fn parse_of_empty_value_is_empty() {
    assert_eq!(parse_path_list(""), Vec::<String>::new());
}

#[test]
fn parse_of_separators_only_is_empty() {
    assert_eq!(parse_path_list(";;;"), Vec::<String>::new());
}

#[test]
fn parse_single_entry() {
    assert_eq!(parse_path_list("C:\\Tools"), owned(&["C:\\Tools"]));
}

#[test]
fn parse_keeps_order() {
    assert_eq!(parse_path_list("b;a;c;a"), owned(&["b", "a", "c", "a"]));
}

#[test]
fn parse_does_not_trim() {
    assert_eq!(parse_path_list(" a ;b ; ;\tc"), owned(&[" a ", "b ", " ", "\tc"]));
}

#[test]
fn parse_leading_separator() {
    assert_eq!(parse_path_list(";x;y"), owned(&["x", "y"]));
}

#[test]
fn parse_keeps_characters_beyond_ascii() {
    assert_eq!(
        parse_path_list("C:\\Köln;D:\\日本語\\bin;;E:\\ß"),
        owned(&["C:\\Köln", "D:\\日本語\\bin", "E:\\ß"])
    );
}

#[test]
fn parse_agrees_with_split_and_filter() {
    let samples = ["", ";", "a", "a;", ";a", "a;b", "a;;b", ";;a;;;b;;", "é;ü;;ö", "one;two;three"];
    for s in samples {
        let expected: Vec<String> =
            s.split(';').filter(|p| !p.is_empty()).map(|p| p.to_string()).collect();
        assert_eq!(parse_path_list(s), expected, "input {:?}", s);
    }
}

#[test]
fn join_of_nothing_is_empty() {
    assert_eq!(join_path_list(&Vec::new()), "");
}

#[test]
fn join_of_one_part_is_the_part() {
    assert_eq!(join_path_list(&owned(&["C:\\A"])), "C:\\A");
}

#[test]
fn join_puts_separator_between_parts() {
    assert_eq!(join_path_list(&owned(&["a", "b", "c"])), "a;b;c");
}

#[test]
fn join_keeps_empty_parts() {
    assert_eq!(join_path_list(&owned(&["", "a", ""])), ";a;");
}

#[test]
fn join_agrees_with_std_join() {
    let lists: [&[&str]; 5] = [&[], &["x"], &["x", "y"], &["", ""], &["ä", "b;c", ""]];
    for list in lists {
        assert_eq!(join_path_list(&owned(list)), list.join(";"));
    }
}

#[test]
fn value_without_empty_segments_round_trips() {
    let stored = "C:\\Windows;C:\\Program Files\\Git\\cmd;D:\\x y";
    assert_eq!(join_path_list(&parse_path_list(stored)), stored);
}

#[test]
fn parse_after_join_gives_the_list_back() {
    let list = owned(&["C:\\A", "C:\\B", "C:\\A"]);
    assert_eq!(parse_path_list(&join_path_list(&list)), list);
}

#[test]
fn second_round_of_parse_and_join_changes_nothing() {
    let once = join_path_list(&parse_path_list(";;a;;b;"));
    let twice = join_path_list(&parse_path_list(&once));
    assert_eq!(once, "a;b");
    assert_eq!(twice, once);
}
