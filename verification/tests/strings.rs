use swc_plugin_jsx_attrs::utils::strings::{copy_from, same_strings, split_dotted};

fn list(items: &[&str]) -> Vec<String> {
    items.iter().map(|s| s.to_string()).collect()
}

#[test]
fn split_dotted_splits_at_every_dot() {
    assert_eq!(split_dotted("Button"), list(&["Button"]));
    assert_eq!(split_dotted("Dropdown.Link"), list(&["Dropdown", "Link"]));
    assert_eq!(split_dotted("default.A.B"), list(&["default", "A", "B"]));
}

#[test]
fn split_dotted_keeps_empty_segments() {
    assert_eq!(split_dotted(""), list(&[""]));
    assert_eq!(split_dotted("."), list(&["", ""]));
    assert_eq!(split_dotted("a."), list(&["a", ""]));
    assert_eq!(split_dotted(".a"), list(&["", "a"]));
    assert_eq!(split_dotted("a..b"), list(&["a", "", "b"]));
}

#[test]
fn split_dotted_counts_characters_not_bytes() {
    assert_eq!(
        split_dotted("\u{4f60}\u{597d}.\u{e9}t\u{e9}.x"),
        list(&["\u{4f60}\u{597d}", "\u{e9}t\u{e9}", "x"])
    );
}

#[test]
fn split_dotted_agrees_with_std_split() {
    for path in ["", "a", "a.b", "..", "a.b.", ".a.b", "x.y.z.w", "\u{1f600}.\u{1f600}"] {
        let expected: Vec<String> = path.split('.').map(|x| x.to_string()).collect();
        assert_eq!(split_dotted(path), expected);
    }
}

#[test]
fn copy_from_takes_the_tail() {
    let v = list(&["a", "b", "c"]);
    assert_eq!(copy_from(&v, 0), v);
    assert_eq!(copy_from(&v, 1), list(&["b", "c"]));
    assert_eq!(copy_from(&v, 3), list(&[]));
    assert_eq!(copy_from(&list(&[]), 0), list(&[]));
}

#[test]
fn same_strings_compares_length_and_content() {
    assert!(same_strings(&list(&[]), &list(&[])));
    assert!(same_strings(&list(&["a", "b"]), &list(&["a", "b"])));
    assert!(!same_strings(&list(&["a", "b"]), &list(&["a"])));
    assert!(!same_strings(&list(&["a"]), &list(&["a", "b"])));
    assert!(!same_strings(&list(&["a", "b"]), &list(&["a", "c"])));
    assert!(!same_strings(&list(&["a", "b"]), &list(&["b", "a"])));
}
