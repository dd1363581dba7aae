use prost_field::entry::{AnnotationEntry, Literal};
use prost_field::label::Label;

fn marker(n: &str) -> AnnotationEntry {
    AnnotationEntry::Marker(n.to_string())
}

#[test]
fn from_attr_matches_only_canonical_markers() {
    assert_eq!(Label::from_attr(&marker("optional")), Some(Label::Optional));
    assert_eq!(Label::from_attr(&marker("required")), Some(Label::Required));
    assert_eq!(Label::from_attr(&marker("repeated")), Some(Label::Repeated));
    assert_eq!(Label::from_attr(&marker("optionally")), None);
    assert_eq!(Label::from_attr(&marker("Optional")), None);
}

#[test]
fn from_attr_rejects_non_marker_shapes() {
    let nv = AnnotationEntry::NameValue("optional".to_string(), Literal::Bool(true));
    assert_eq!(Label::from_attr(&nv), None);
    let list = AnnotationEntry::List("required".to_string(), Vec::new());
    assert_eq!(Label::from_attr(&list), None);
}

#[test]
fn as_str_round_trips_through_from_attr() {
    for l in Label::variants() {
        assert_eq!(Label::from_attr(&marker(l.as_str())), Some(l));
    }
}

#[test]
fn variants_in_canonical_order() {
    let v = Label::variants();
    assert_eq!(v, vec![Label::Optional, Label::Required, Label::Repeated]);
    assert_eq!(v[0].as_str(), "optional");
    assert_eq!(v[1].as_str(), "required");
    assert_eq!(v[2].as_str(), "repeated");
}
