use arrow_tools::clap_comma_separated;
use arrow_tools::columns::ColumnSet;
use arrow_tools::text::same_text;

#[test]
fn test_clap_comma_separated() {
    let cols = clap_comma_separated("foo,bar,baz").unwrap();
    assert!(cols.contains(&"foo".to_string()));
    assert!(cols.contains(&"bar".to_string()));
    assert!(cols.contains(&"baz".to_string()));
}

#[test]
fn comma_separated_holds_nothing_else() {
    let cols = clap_comma_separated("foo,bar,baz").unwrap();
    assert_eq!(cols.len(), 3);
    assert!(!cols.contains("fo"));
    assert!(!cols.contains("foo,bar"));
    assert!(!cols.contains(""));
    assert!(!cols.contains("*"));
    assert!(!cols.has_wildcard());
}

#[test]
fn comma_separated_keeps_order_of_arrival() {
    let cols = clap_comma_separated("foo,bar,baz").unwrap();
    assert_eq!(cols.get(0).unwrap(), "foo");
    assert_eq!(cols.get(1).unwrap(), "bar");
    assert_eq!(cols.get(2).unwrap(), "baz");
    assert!(cols.get(3).is_none());
}

#[test]
fn empty_argument_is_the_empty_set() {
    let cols = clap_comma_separated("").unwrap();
    assert!(cols.is_empty());
    assert_eq!(cols.len(), 0);
    assert!(!cols.contains(""));
}

#[test]
fn single_name_without_comma() {
    let cols = clap_comma_separated("price").unwrap();
    assert_eq!(cols.len(), 1);
    assert!(cols.contains("price"));
}

#[test]
fn empty_segments_are_names_too() {
    let cols = clap_comma_separated("a,,b").unwrap();
    assert_eq!(cols.len(), 3);
    assert!(cols.contains("a"));
    assert!(cols.contains(""));
    assert!(cols.contains("b"));

    let trailing = clap_comma_separated("a,").unwrap();
    assert_eq!(trailing.len(), 2);
    assert!(trailing.contains("a"));
    assert!(trailing.contains(""));

    let leading = clap_comma_separated(",a").unwrap();
    assert_eq!(leading.len(), 2);
    assert!(leading.contains(""));
    assert!(leading.contains("a"));

    let only = clap_comma_separated(",").unwrap();
    assert_eq!(only.len(), 1);
    assert!(only.contains(""));
}

#[test]
fn repeated_names_are_held_once() {
    let cols = clap_comma_separated("a,b,a,a,b").unwrap();
    assert_eq!(cols.len(), 2);
    assert!(cols.contains("a"));
    assert!(cols.contains("b"));
    assert_eq!(cols.get(0).unwrap(), "a");
    assert_eq!(cols.get(1).unwrap(), "b");
}

#[test]
fn names_beyond_ascii_are_split_by_characters() {
    let cols = clap_comma_separated("größe,名前,x").unwrap();
    assert_eq!(cols.len(), 3);
    assert!(cols.contains("größe"));
    assert!(cols.contains("名前"));
    assert!(cols.contains("x"));
    assert!(!cols.contains("grö"));
}

#[test]
fn wildcard_tokens_are_recognised() {
    assert!(clap_comma_separated("*").unwrap().has_wildcard());
    assert!(clap_comma_separated("__all__").unwrap().has_wildcard());
    assert!(clap_comma_separated("a,*,b").unwrap().has_wildcard());
    assert!(clap_comma_separated("a,__all__").unwrap().has_wildcard());
    assert!(!clap_comma_separated("a,b").unwrap().has_wildcard());
    assert!(!clap_comma_separated("**").unwrap().has_wildcard());
    assert!(!clap_comma_separated("_all_").unwrap().has_wildcard());
    assert!(!clap_comma_separated("").unwrap().has_wildcard());
}

#[test]
fn insert_tells_whether_the_name_is_new() {
    let mut cols = ColumnSet::new();
    assert!(cols.is_empty());
    assert!(cols.insert("a".to_string()));
    assert!(cols.insert("b".to_string()));
    assert!(!cols.insert("a".to_string()));
    assert_eq!(cols.len(), 2);
    assert!(cols.contains("a"));
    assert!(cols.contains("b"));
    assert!(!cols.contains("c"));
    assert!(!cols.is_empty());
}

#[test]
fn clone_holds_the_same_names() {
    let cols = clap_comma_separated("x,y").unwrap();
    let copy = cols.clone();
    assert_eq!(copy.len(), 2);
    assert_eq!(copy.get(0).unwrap(), "x");
    assert_eq!(copy.get(1).unwrap(), "y");
}

#[test]
fn same_text_compares_characters() {
    assert!(same_text("", ""));
    assert!(same_text("abc", "abc"));
    assert!(!same_text("abc", "abd"));
    assert!(!same_text("abc", "ab"));
    assert!(!same_text("", "a"));
    assert!(same_text("名前", "名前"));
    assert!(!same_text("名前", "名"));
}
