use prost_field::attrs::{bool_attr, set_bool, set_option, tag_attr, tags_attr, word_attr};
use prost_field::entry::{AnnotationEntry, Literal, MetaItem};

fn marker(n: &str) -> AnnotationEntry {
    AnnotationEntry::Marker(n.to_string())
}

fn name_str(n: &str, v: &str) -> AnnotationEntry {
    AnnotationEntry::NameValue(n.to_string(), Literal::Str(v.to_string()))
}

fn name_int(n: &str, v: u64) -> AnnotationEntry {
    AnnotationEntry::NameValue(n.to_string(), Literal::Int(v))
}

fn name_bool(n: &str, v: bool) -> AnnotationEntry {
    AnnotationEntry::NameValue(n.to_string(), Literal::Bool(v))
}

fn int_list(n: &str, vs: &[u64]) -> AnnotationEntry {
    let items = vs.iter().map(|v| MetaItem::Lit(Literal::Int(*v))).collect();
    AnnotationEntry::List(n.to_string(), items)
}

#[test]
fn foreign_name_is_no_match_not_error() {
    assert_eq!(bool_attr("packed", &marker("zzz")).unwrap(), None);
    assert_eq!(bool_attr("packed", &name_int("other", 3)).unwrap(), None);
    assert_eq!(tag_attr(&marker("other")).unwrap(), None);
    assert_eq!(tag_attr(&name_str("tags", "1")).unwrap(), None);
    assert_eq!(tags_attr(&name_str("tag", "1")).unwrap(), None);
    assert_eq!(tags_attr(&int_list("anything", &[9])).unwrap(), None);
}

#[test]
fn word_attr_matches_exactly() {
    assert!(word_attr("ignore", &marker("ignore")));
    assert!(!word_attr("ignore", &AnnotationEntry::List("ignore".to_string(), Vec::new())));
    assert!(!word_attr("ignore", &name_bool("ignore", true)));
    assert!(!word_attr("ignore", &marker("Ignore")));
    assert!(!word_attr("ignore", &marker("ignored")));
}

#[test]
fn bool_attr_forms() {
    assert_eq!(bool_attr("packed", &marker("packed")).unwrap(), Some(true));
    let one_false = AnnotationEntry::List(
        "packed".to_string(),
        vec![MetaItem::Lit(Literal::Bool(false))],
    );
    assert_eq!(bool_attr("packed", &one_false).unwrap(), Some(false));
    assert_eq!(bool_attr("packed", &name_bool("packed", true)).unwrap(), Some(true));
    assert_eq!(bool_attr("packed", &name_str("packed", "true")).unwrap(), Some(true));
    assert_eq!(bool_attr("packed", &name_str("packed", "false")).unwrap(), Some(false));
}

#[test]
fn bool_attr_rejects_bad_shapes() {
    let two = AnnotationEntry::List(
        "packed".to_string(),
        vec![MetaItem::Lit(Literal::Bool(true)), MetaItem::Lit(Literal::Bool(true))],
    );
    let e = bool_attr("packed", &two).unwrap_err();
    assert_eq!(e.msg, "invalid packed attribute");
    let e = bool_attr("packed", &name_int("packed", 1)).unwrap_err();
    assert_eq!(e.msg, "invalid packed attribute");
    let e = bool_attr("packed", &name_str("packed", "yes")).unwrap_err();
    assert_eq!(e.msg, "invalid boolean: yes");
}

#[test]
fn tag_attr_single_integer_list() {
    assert_eq!(tag_attr(&int_list("tag", &[7])).unwrap(), Some(7));
}

#[test]
fn tag_attr_two_integers_is_error() {
    let e = tag_attr(&int_list("tag", &[7, 8])).unwrap_err();
    assert_eq!(e.msg, "invalid tag attribute");
}

#[test]
fn tag_attr_string_and_int_values() {
    assert_eq!(tag_attr(&name_str("tag", "42")).unwrap(), Some(42));
    assert_eq!(tag_attr(&name_int("tag", 3)).unwrap(), Some(3));
    let e = tag_attr(&name_str("tag", "x")).unwrap_err();
    assert_eq!(e.msg, "invalid integer: x");
    let e = tag_attr(&name_str("tag", "4294967296")).unwrap_err();
    assert_eq!(e.msg, "invalid integer: 4294967296");
    let e = tag_attr(&marker("tag")).unwrap_err();
    assert_eq!(e.msg, "invalid tag attribute");
    let e = tag_attr(&name_bool("tag", true)).unwrap_err();
    assert_eq!(e.msg, "invalid tag attribute");
}

#[test]
fn tags_attr_string_splits_and_trims() {
    let r = tags_attr(&name_str("tags", "1, 2,3")).unwrap().unwrap();
    assert_eq!(r, vec![1, 2, 3]);
}

#[test]
fn tags_attr_string_bad_token_is_error() {
    let e = tags_attr(&name_str("tags", "1,x")).unwrap_err();
    assert_eq!(e.msg, "invalid integer: x");
    let e = tags_attr(&name_str("tags", "")).unwrap_err();
    assert_eq!(e.msg, "invalid integer: ");
}

#[test]
fn tags_attr_list_keeps_duplicates_in_order() {
    let r = tags_attr(&int_list("tags", &[5, 1, 5])).unwrap().unwrap();
    assert_eq!(r, vec![5, 1, 5]);
}

#[test]
fn tags_attr_list_rejects_non_integers() {
    let bad = AnnotationEntry::List(
        "tags".to_string(),
        vec![MetaItem::Lit(Literal::Int(1)), MetaItem::Lit(Literal::Bool(true))],
    );
    let e = tags_attr(&bad).unwrap_err();
    assert_eq!(e.msg, "invalid tag attribute");
}

#[test]
fn set_option_once_holds_the_value() {
    let mut slot: Option<u32> = None;
    set_option(&mut slot, 5, "duplicate tag attributes").unwrap();
    assert_eq!(slot, Some(5));
}

#[test]
fn set_option_twice_mentions_both_values() {
    let mut slot: Option<u32> = Some(5);
    let e = set_option(&mut slot, 7, "duplicate tag attributes").unwrap_err();
    assert_eq!(e.msg, "duplicate tag attributes: 5 and 7");
    assert_eq!(slot, Some(5));
}

#[test]
fn set_bool_twice_fails_and_flag_stays_true() {
    let mut flag = false;
    set_bool(&mut flag, "boolean already set").unwrap();
    assert!(flag);
    let e = set_bool(&mut flag, "boolean already set").unwrap_err();
    assert_eq!(e.msg, "boolean already set");
    assert!(flag);
}
