use prost_field::attrs::{prost_attrs, prost_nested_attrs};
use prost_field::entry::{AnnotationEntry, Attribute, Literal, MetaItem};
use prost_field::field::{Field, FieldKind, Fragment, MemberType, Options};
use prost_field::field::{GroupField, MapField, MessageField, OneofField, ScalarField};
use prost_field::label::Label;

fn marker(n: &str) -> AnnotationEntry {
    AnnotationEntry::Marker(n.to_string())
}

fn name_str(n: &str, v: &str) -> AnnotationEntry {
    AnnotationEntry::NameValue(n.to_string(), Literal::Str(v.to_string()))
}

fn tag_list(v: u64) -> AnnotationEntry {
    AnnotationEntry::List("tag".to_string(), vec![MetaItem::Lit(Literal::Int(v))])
}

fn schema(entries: Vec<AnnotationEntry>) -> Attribute {
    Attribute::Schema(entries.into_iter().map(MetaItem::Entry).collect())
}

fn member() -> MemberType {
    MemberType { name: "u32".to_string() }
}

fn new_fields(attrs: Vec<Attribute>, cursor: Option<u32>) -> Result<Vec<Field>, String> {
    Field::new(member(), attrs, cursor, &Options::new()).map_err(|e| e.msg)
}

#[test]
fn scalar_group_with_everything_explicit() {
    let attrs = vec![schema(vec![
        marker("uint32"),
        marker("optional"),
        tag_list(9),
        name_str("packed", "true"),
    ])];
    let fields = new_fields(attrs, None).unwrap();
    assert_eq!(fields.len(), 1);
    match &fields[0] {
        Field::Scalar(s) => {
            assert_eq!(s.ty_name, "uint32");
            assert_eq!(s.label, Some(Label::Optional));
            assert_eq!(s.packed, Some(true));
            assert_eq!(s.tag, 9);
        }
        other => panic!("expected a scalar field, got {:?}", other),
    }
}

#[test]
fn missing_tag_without_cursor_is_error() {
    let attrs = vec![schema(vec![marker("int32")])];
    assert_eq!(new_fields(attrs, None).unwrap_err(), "missing tag attribute");
}

#[test]
fn unrecognized_group_has_no_type() {
    let attrs = vec![schema(vec![marker("something_else")])];
    assert_eq!(new_fields(attrs, None).unwrap_err(), "no type attribute");
}

#[test]
fn foreign_attachments_are_skipped() {
    let attrs = vec![Attribute::Foreign, schema(vec![marker("bool"), tag_list(2)])];
    let fields = new_fields(attrs, None).unwrap();
    assert_eq!(fields.len(), 1);
    assert_eq!(fields[0].tags(), vec![2]);
}

#[test]
fn malformed_attachment_is_an_error() {
    let attrs = vec![Attribute::Malformed("boom".to_string())];
    assert_eq!(new_fields(attrs, None).unwrap_err(), "boom");
}

#[test]
fn bare_literal_in_attachment_is_an_error() {
    let attrs = vec![Attribute::Schema(vec![MetaItem::Lit(Literal::Int(1))])];
    assert_eq!(new_fields(attrs, None).unwrap_err(), "invalid prost attribute: literal");
}

#[test]
fn ignore_alone_yields_the_ignore_descriptor() {
    let attrs = vec![schema(vec![marker("ignore")])];
    let fields = new_fields(attrs, Some(1)).unwrap();
    assert_eq!(fields.len(), 1);
    assert_eq!(fields[0], Field::Ignore);
    assert_eq!(fields[0].tags(), Vec::<u32>::new());
}

#[test]
fn ignore_then_second_group_is_a_conflict() {
    let attrs = vec![
        schema(vec![marker("ignore")]),
        schema(vec![marker("message"), tag_list(1)]),
    ];
    assert_eq!(
        new_fields(attrs, None).unwrap_err(),
        "ignore attribute used but other attributes were found"
    );
}

#[test]
fn ignore_conflict_raised_even_for_an_empty_second_group() {
    let attrs = vec![schema(vec![marker("ignore")]), schema(Vec::new())];
    assert_eq!(
        new_fields(attrs, None).unwrap_err(),
        "ignore attribute used but other attributes were found"
    );
}

#[test]
fn cursor_five_then_six_across_two_groups() {
    let attrs = vec![schema(vec![marker("int32")]), schema(vec![marker("message")])];
    let fields = new_fields(attrs, Some(5)).unwrap();
    assert_eq!(fields.len(), 2);
    assert_eq!(fields[0].tags(), vec![5]);
    assert_eq!(fields[1].tags(), vec![6]);
}

#[test]
fn oneof_group_carries_its_declared_tags() {
    let attrs = vec![schema(vec![
        name_str("oneof", "Choice"),
        name_str("tags", "1, 2,3"),
    ])];
    let fields = new_fields(attrs, None).unwrap();
    assert_eq!(fields.len(), 1);
    match &fields[0] {
        Field::Oneof(o) => assert_eq!(o.tags, vec![1, 2, 3]),
        other => panic!("expected a oneof field, got {:?}", other),
    }
    assert_eq!(fields[0].tags(), vec![1, 2, 3]);
}

#[test]
fn cursor_advances_past_the_largest_oneof_tag() {
    let attrs = vec![
        schema(vec![name_str("oneof", "Choice"), name_str("tags", "4, 9, 2")]),
        schema(vec![marker("string")]),
    ];
    let fields = new_fields(attrs, None).unwrap();
    assert_eq!(fields[1].tags(), vec![10]);
}

#[test]
fn oneof_without_tags_is_an_error() {
    let attrs = vec![schema(vec![name_str("oneof", "Choice")])];
    assert_eq!(new_fields(attrs, None).unwrap_err(), "missing tags attribute");
}

#[test]
fn duplicate_tag_attributes_mention_both() {
    let attrs = vec![schema(vec![marker("int32"), tag_list(1), tag_list(2)])];
    assert_eq!(new_fields(attrs, None).unwrap_err(), "duplicate tag attributes: 1 and 2");
}

#[test]
fn duplicate_labels_mention_both() {
    let attrs = vec![schema(vec![marker("int32"), marker("optional"), marker("required")])];
    assert_eq!(
        new_fields(attrs, None).unwrap_err(),
        "duplicate label attributes: optional and required"
    );
}

#[test]
fn duplicate_scalar_types_mention_both() {
    let attrs = vec![schema(vec![marker("int32"), marker("uint64"), tag_list(1)])];
    assert_eq!(
        new_fields(attrs, None).unwrap_err(),
        "duplicate type attributes: int32 and uint64"
    );
}

#[test]
fn largest_possible_tag_cannot_advance_the_cursor() {
    let attrs = vec![schema(vec![marker("int32"), name_str("tag", "4294967295")])];
    assert_eq!(new_fields(attrs, None).unwrap_err(), "tag overflow");
}

#[test]
fn group_kind_matches_after_the_others() {
    let attrs = vec![schema(vec![marker("group"), tag_list(11)])];
    let fields = new_fields(attrs, None).unwrap();
    match &fields[0] {
        Field::Group(g) => assert_eq!(g.tag, 11),
        other => panic!("expected a group field, got {:?}", other),
    }
}

#[test]
fn map_kind_matches_any_entry_named_map() {
    let attrs = vec![schema(vec![name_str("map", "string, uint32"), tag_list(4)])];
    let fields = new_fields(attrs, None).unwrap();
    match &fields[0] {
        Field::Mapping(m) => assert_eq!(m.tag, 4),
        other => panic!("expected a map field, got {:?}", other),
    }
}

#[test]
fn oneof_restricted_message_marker_alone_succeeds() {
    let attrs = vec![schema(vec![marker("message")])];
    let r = Field::new_oneof(attrs, &Options::new()).unwrap().unwrap();
    assert!(matches!(r, Field::Message(_)));
}

#[test]
fn oneof_restricted_ignore_has_no_type() {
    let attrs = vec![schema(vec![marker("ignore")])];
    let e = Field::new_oneof(attrs, &Options::new()).unwrap_err();
    assert_eq!(e.msg, "no type attribute for oneof field");
}

#[test]
fn oneof_restricted_flattens_attachments() {
    let attrs = vec![
        schema(vec![marker("uint64")]),
        schema(vec![tag_list(3)]),
    ];
    let r = Field::new_oneof(attrs, &Options::new()).unwrap().unwrap();
    match r {
        Field::Scalar(s) => {
            assert_eq!(s.ty_name, "uint64");
            assert_eq!(s.tag, 3);
        }
        other => panic!("expected a scalar field, got {:?}", other),
    }
}

#[test]
fn prost_attrs_flattens_and_rejects_literals() {
    let flat = prost_attrs(vec![
        schema(vec![marker("uint32")]),
        Attribute::Foreign,
        schema(vec![tag_list(1)]),
    ])
    .unwrap();
    assert_eq!(flat.len(), 2);
    match prost_attrs(vec![Attribute::Schema(vec![MetaItem::Lit(Literal::Bool(true))])]) {
        Err(e) => assert_eq!(e.msg, "invalid prost attribute: literal"),
        Ok(_) => panic!("a bare literal must be rejected"),
    }
}

#[test]
fn nested_attrs_keep_group_errors_in_place() {
    let groups = prost_nested_attrs(vec![
        schema(vec![marker("bool")]),
        Attribute::Malformed("bad syntax".to_string()),
        Attribute::Foreign,
    ]);
    assert_eq!(groups.len(), 2);
    assert!(groups[0].is_ok());
    match &groups[1] {
        Err(e) => assert_eq!(e.msg, "bad syntax"),
        Ok(_) => panic!("a malformed attachment must stay an error"),
    }
}

#[test]
fn dispatch_fragments_per_kind() {
    let scalar = Field::Scalar(ScalarField {
        ty_name: "int32".to_string(),
        label: None,
        packed: None,
        tag: 1,
    });
    let message = Field::Message(MessageField { label: None, tag: 2 });
    let map = Field::Mapping(MapField { tag: 3 });
    let oneof = Field::Oneof(OneofField { tags: vec![4, 5] });
    let group = Field::Group(GroupField { tag: 6 });
    let ignore = Field::Ignore;

    assert_eq!(scalar.encode(), Fragment::Delegate(FieldKind::Scalar));
    assert_eq!(oneof.encode(), Fragment::Delegate(FieldKind::Oneof));
    assert_eq!(ignore.encode(), Fragment::Empty);

    assert_eq!(map.merge(), Fragment::Delegate(FieldKind::Mapping));
    assert_eq!(ignore.merge(), Fragment::Empty);

    assert_eq!(group.encoded_len(), Fragment::Delegate(FieldKind::Group));
    assert_eq!(ignore.encoded_len(), Fragment::Zero);

    assert_eq!(message.clear(), Fragment::Delegate(FieldKind::Message));
    assert_eq!(ignore.clear(), Fragment::Empty);

    assert_eq!(scalar.default(), Fragment::Delegate(FieldKind::Scalar));
    assert_eq!(message.default(), Fragment::GenericDefault);
    assert_eq!(ignore.default(), Fragment::GenericDefault);

    assert_eq!(scalar.debug(), Fragment::DelegateWrapped(FieldKind::Scalar));
    assert_eq!(map.debug(), Fragment::DelegateWrapped(FieldKind::Mapping));
    assert_eq!(message.debug(), Fragment::Delegate(FieldKind::Message));
    assert_eq!(oneof.debug(), Fragment::PlainRef);
    assert_eq!(ignore.debug(), Fragment::PlainRef);

    assert_eq!(scalar.methods(), Some(Fragment::Delegate(FieldKind::Scalar)));
    assert_eq!(map.methods(), Some(Fragment::Delegate(FieldKind::Mapping)));
    assert_eq!(oneof.methods(), None);
    assert_eq!(ignore.methods(), None);
}

#[test]
fn attribute_shape_errors_precede_the_no_type_error() {
    let attrs = vec![schema(vec![tag_list(1), tag_list(2)])];
    assert_eq!(new_fields(attrs, None).unwrap_err(), "duplicate tag attributes: 1 and 2");
    let attrs = vec![schema(vec![name_str("tag", "x")])];
    assert_eq!(new_fields(attrs, None).unwrap_err(), "invalid integer: x");
}

#[test]
fn a_member_may_expand_into_several_descriptors() {
    let attrs = vec![
        schema(vec![marker("int32"), tag_list(1)]),
        schema(vec![marker("message"), tag_list(7)]),
    ];
    let fields = new_fields(attrs, None).unwrap();
    assert_eq!(fields.len(), 2);
    assert_eq!(fields[0].tags(), vec![1]);
    assert_eq!(fields[1].tags(), vec![7]);
}
