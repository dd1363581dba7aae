//! The field-descriptor dispatch union and its construction: kind
//! classification in fixed priority order, tag inference, the ignore
//! conflict, and the uniform codec-dispatch operations.

use vstd::prelude::*;
use crate::attrs::{bool_attr, bool_attr_spec, nested_groups, prost_attrs, prost_nested_attrs,
    set_bool, set_flag_spec, set_once_spec, set_option, tag_attr, tag_attr_spec, tags_attr,
    tags_attr_spec, word_attr, flat_entries, group_view, groups_view};
use crate::entry::{AnnotationEntry, Attribute, entry_name, is_word, name_matches};
use crate::error::Error;
use crate::label::{Label, label_from_spec};

verus! {

/// Opaque configuration, passed through to kind classifiers
/// unexamined.
pub struct Options {}

impl Options {
    /// A default configuration.
    pub fn new() -> Options {
        Options {  }
    }
}

/// The declared type of the member a field belongs to, carried
/// through to kind classifiers unexamined.
pub struct MemberType {
    /// The type's printable name.
    pub name: String,
}

/// The data of a matched scalar field.
#[derive(Clone, Debug, PartialEq)]
pub struct ScalarField {
    /// The scalar type marker that matched.
    pub ty_name: String,
    /// The declared multiplicity, if any.
    pub label: Option<Label>,
    /// The declared packed encoding choice, if any.
    pub packed: Option<bool>,
    /// The claimed wire tag.
    pub tag: u32,
}

/// The data of a matched message field.
#[derive(Clone, Debug, PartialEq)]
pub struct MessageField {
    /// The declared multiplicity, if any.
    pub label: Option<Label>,
    /// The claimed wire tag.
    pub tag: u32,
}

/// The data of a matched map field.
#[derive(Clone, Debug, PartialEq)]
pub struct MapField {
    /// The claimed wire tag.
    pub tag: u32,
}

/// The data of a matched oneof field.
#[derive(Clone, Debug, PartialEq)]
pub struct OneofField {
    /// The claimed wire tags, in declaration order; never empty.
    pub tags: Vec<u32>,
}

/// The data of a matched group field.
#[derive(Clone, Debug, PartialEq)]
pub struct GroupField {
    /// The claimed wire tag.
    pub tag: u32,
}

/// A field descriptor: exactly one matched kind, or an ignore marker.
#[derive(Clone, Debug, PartialEq)]
pub enum Field {
    /// A scalar field.
    Scalar(ScalarField),
    /// A message field.
    Message(MessageField),
    /// A map field.
    Mapping(MapField),
    /// A oneof field.
    Oneof(OneofField),
    /// A group field.
    Group(GroupField),
    /// An ignored field.
    Ignore,
}

/// The specification-level value of a field descriptor.
pub enum FieldModel {
    /// A scalar field.
    Scalar(ScalarField),
    /// A message field.
    Message(MessageField),
    /// A map field.
    Mapping(MapField),
    /// A oneof field: its claimed tags.
    Oneof(Seq<u32>),
    /// A group field.
    Group(GroupField),
    /// An ignored field.
    Ignore,
}

/// The model of a field descriptor.
pub open spec fn field_model(f: Field) -> FieldModel {
    match f {
        Field::Scalar(s) => FieldModel::Scalar(s),
        Field::Message(m) => FieldModel::Message(m),
        Field::Mapping(m) => FieldModel::Mapping(m),
        Field::Oneof(o) => FieldModel::Oneof(o.tags@),
        Field::Group(g) => FieldModel::Group(g),
        Field::Ignore => FieldModel::Ignore,
    }
}

/// The models of a descriptor list.
pub open spec fn models_of(fs: Seq<Field>) -> Seq<FieldModel> {
    fs.map_values(|f: Field| field_model(f))
}

/// The message rejecting a group without an explicit or inferable tag.
pub open spec fn missing_tag_msg() -> Seq<char> {
    "missing tag attribute"@
}

/// The message rejecting a oneof group without a non-empty tag list.
pub open spec fn missing_tags_msg() -> Seq<char> {
    "missing tags attribute"@
}

/// The message rejecting a group no kind classifier recognized.
pub open spec fn no_type_msg() -> Seq<char> {
    "no type attribute"@
}

/// The message rejecting an unrecognized group in a oneof context.
pub open spec fn no_type_oneof_msg() -> Seq<char> {
    "no type attribute for oneof field"@
}

/// The message rejecting further groups after an ignore marker.
pub open spec fn ignore_conflict_msg() -> Seq<char> {
    "ignore attribute used but other attributes were found"@
}

/// The message rejecting a claimed tag too large to advance past.
pub open spec fn tag_overflow_msg() -> Seq<char> {
    "tag overflow"@
}

/// The scalar type markers this schema language recognizes.
pub open spec fn is_scalar_ty_name(n: Seq<char>) -> bool {
    ||| n == "double"@
    ||| n == "float"@
    ||| n == "int32"@
    ||| n == "int64"@
    ||| n == "uint32"@
    ||| n == "uint64"@
    ||| n == "sint32"@
    ||| n == "sint64"@
    ||| n == "fixed32"@
    ||| n == "fixed64"@
    ||| n == "sfixed32"@
    ||| n == "sfixed64"@
    ||| n == "bool"@
    ||| n == "string"@
    ||| n == "bytes"@
    ||| n == "enumeration"@
}

/// The scalar type marker an entry carries, if it is one.
pub open spec fn scalar_ty_of(e: AnnotationEntry) -> Option<String> {
    match e {
        AnnotationEntry::Marker(n) => if is_scalar_ty_name(n@) {
            Some(n)
        } else {
            None
        },
        _ => None,
    }
}

/// The tag a group claims: the explicit one, else the inferred
/// cursor, else an error.
pub open spec fn resolve_tag(explicit: Option<u32>, cursor: Option<u32>) -> Result<
    u32,
    Seq<char>,
> {
    match explicit {
        Some(t) => Ok(t),
        None => match cursor {
            Some(t) => Ok(t),
            None => Err(missing_tag_msg()),
        },
    }
}

/// The running state of the scalar classifier's scan.
pub struct ScalarScan {
    /// The scalar type marker seen so far.
    pub ty_name: Option<String>,
    /// The explicit tag seen so far.
    pub tag: Option<u32>,
    /// The label seen so far.
    pub label: Option<Label>,
    /// The packed choice seen so far.
    pub packed: Option<bool>,
}

/// The empty scalar scan state.
pub open spec fn init_scalar_scan() -> ScalarScan {
    ScalarScan { ty_name: None, tag: None, label: None, packed: None }
}

/// One step of the scalar classifier's scan over a group.
pub open spec fn scalar_step(st: ScalarScan, e: AnnotationEntry) -> Result<ScalarScan, Seq<char>> {
    match scalar_ty_of(e) {
        Some(n) => match set_once_spec(st.ty_name, n, "duplicate type attributes"@) {
            Ok(s) => Ok(ScalarScan { ty_name: s, tag: st.tag, label: st.label, packed: st.packed }),
            Err(m) => Err(m),
        },
        None => match tag_attr_spec(e) {
            Err(m) => Err(m),
            Ok(Some(t)) => match set_once_spec(st.tag, t, "duplicate tag attributes"@) {
                Ok(s) => Ok(
                    ScalarScan { ty_name: st.ty_name, tag: s, label: st.label, packed: st.packed },
                ),
                Err(m) => Err(m),
            },
            Ok(None) => match label_from_spec(e) {
                Some(l) => match set_once_spec(st.label, l, "duplicate label attributes"@) {
                    Ok(s) => Ok(
                        ScalarScan {
                            ty_name: st.ty_name,
                            tag: st.tag,
                            label: s,
                            packed: st.packed,
                        },
                    ),
                    Err(m) => Err(m),
                },
                None => match bool_attr_spec("packed"@, e) {
                    Err(m) => Err(m),
                    Ok(Some(b)) => match set_once_spec(
                        st.packed,
                        b,
                        "duplicate packed attributes"@,
                    ) {
                        Ok(s) => Ok(
                            ScalarScan {
                                ty_name: st.ty_name,
                                tag: st.tag,
                                label: st.label,
                                packed: s,
                            },
                        ),
                        Err(m) => Err(m),
                    },
                    Ok(None) => Ok(st),
                },
            },
        },
    }
}

/// The scalar classifier's scan over a group, in order.
pub open spec fn scalar_scan(g: Seq<AnnotationEntry>, st: ScalarScan) -> Result<
    ScalarScan,
    Seq<char>,
>
    decreases g.len(),
{
    if g.len() == 0 {
        Ok(st)
    } else {
        match scalar_step(st, g[0]) {
            Ok(st2) => scalar_scan(g.drop_first(), st2),
            Err(m) => Err(m),
        }
    }
}

/// What the scalar classifier returns for a group: no match without a
/// scalar type marker; else the validated data with a resolved tag.
pub open spec fn classify_scalar(g: Seq<AnnotationEntry>, cursor: Option<u32>) -> Result<
    Option<ScalarField>,
    Seq<char>,
> {
    match scalar_scan(g, init_scalar_scan()) {
        Err(m) => Err(m),
        Ok(st) => match st.ty_name {
            None => Ok(None),
            Some(n) => match resolve_tag(st.tag, cursor) {
                Err(m) => Err(m),
                Ok(t) => Ok(
                    Some(ScalarField { ty_name: n, label: st.label, packed: st.packed, tag: t }),
                ),
            },
        },
    }
}

/// The running state of the message classifier's scan.
pub struct MessageScan {
    /// Whether the message marker was seen.
    pub seen: bool,
    /// The explicit tag seen so far.
    pub tag: Option<u32>,
    /// The label seen so far.
    pub label: Option<Label>,
}

/// One step of the message classifier's scan over a group.
pub open spec fn message_step(st: MessageScan, e: AnnotationEntry) -> Result<
    MessageScan,
    Seq<char>,
> {
    if is_word("message"@, e) {
        match set_flag_spec(st.seen, "duplicate message attribute"@) {
            Ok(b) => Ok(MessageScan { seen: b, tag: st.tag, label: st.label }),
            Err(m) => Err(m),
        }
    } else {
        match tag_attr_spec(e) {
            Err(m) => Err(m),
            Ok(Some(t)) => match set_once_spec(st.tag, t, "duplicate tag attributes"@) {
                Ok(s) => Ok(MessageScan { seen: st.seen, tag: s, label: st.label }),
                Err(m) => Err(m),
            },
            Ok(None) => match label_from_spec(e) {
                Some(l) => match set_once_spec(st.label, l, "duplicate label attributes"@) {
                    Ok(s) => Ok(MessageScan { seen: st.seen, tag: st.tag, label: s }),
                    Err(m) => Err(m),
                },
                None => Ok(st),
            },
        }
    }
}

/// The message classifier's scan over a group, in order.
pub open spec fn message_scan(g: Seq<AnnotationEntry>, st: MessageScan) -> Result<
    MessageScan,
    Seq<char>,
>
    decreases g.len(),
{
    if g.len() == 0 {
        Ok(st)
    } else {
        match message_step(st, g[0]) {
            Ok(st2) => message_scan(g.drop_first(), st2),
            Err(m) => Err(m),
        }
    }
}

/// What the message classifier returns for a group.
pub open spec fn classify_message(g: Seq<AnnotationEntry>, cursor: Option<u32>) -> Result<
    Option<MessageField>,
    Seq<char>,
> {
    match message_scan(g, MessageScan { seen: false, tag: None, label: None }) {
        Err(m) => Err(m),
        Ok(st) => if !st.seen {
            Ok(None)
        } else {
            match resolve_tag(st.tag, cursor) {
                Err(m) => Err(m),
                Ok(t) => Ok(Some(MessageField { label: st.label, tag: t })),
            }
        },
    }
}

/// The running state of the map classifier's scan.
pub struct MapScan {
    /// Whether a map attribute was seen.
    pub seen: bool,
    /// The explicit tag seen so far.
    pub tag: Option<u32>,
}

/// One step of the map classifier's scan over a group. Any entry
/// named "map" is the kind marker; its payload is the concern of the
/// map codec, not of classification.
pub open spec fn map_step(st: MapScan, e: AnnotationEntry) -> Result<MapScan, Seq<char>> {
    if entry_name(e) == "map"@ {
        match set_flag_spec(st.seen, "duplicate map attribute"@) {
            Ok(b) => Ok(MapScan { seen: b, tag: st.tag }),
            Err(m) => Err(m),
        }
    } else {
        match tag_attr_spec(e) {
            Err(m) => Err(m),
            Ok(Some(t)) => match set_once_spec(st.tag, t, "duplicate tag attributes"@) {
                Ok(s) => Ok(MapScan { seen: st.seen, tag: s }),
                Err(m) => Err(m),
            },
            Ok(None) => Ok(st),
        }
    }
}

/// The map classifier's scan over a group, in order.
pub open spec fn map_scan(g: Seq<AnnotationEntry>, st: MapScan) -> Result<MapScan, Seq<char>>
    decreases g.len(),
{
    if g.len() == 0 {
        Ok(st)
    } else {
        match map_step(st, g[0]) {
            Ok(st2) => map_scan(g.drop_first(), st2),
            Err(m) => Err(m),
        }
    }
}

/// What the map classifier returns for a group.
pub open spec fn classify_map(g: Seq<AnnotationEntry>, cursor: Option<u32>) -> Result<
    Option<MapField>,
    Seq<char>,
> {
    match map_scan(g, MapScan { seen: false, tag: None }) {
        Err(m) => Err(m),
        Ok(st) => if !st.seen {
            Ok(None)
        } else {
            match resolve_tag(st.tag, cursor) {
                Err(m) => Err(m),
                Ok(t) => Ok(Some(MapField { tag: t })),
            }
        },
    }
}

/// The running state of the oneof classifier's scan.
pub struct OneofScanState {
    /// Whether a oneof attribute was seen.
    pub seen: bool,
    /// The declared tag list seen so far.
    pub tags: Option<Seq<u32>>,
}

/// One step of the oneof classifier's scan over a group. Any entry
/// named "oneof" is the kind marker; its payload is the concern of
/// the oneof codec, not of classification.
pub open spec fn oneof_step(st: OneofScanState, e: AnnotationEntry) -> Result<
    OneofScanState,
    Seq<char>,
> {
    if entry_name(e) == "oneof"@ {
        match set_flag_spec(st.seen, "duplicate oneof attribute"@) {
            Ok(b) => Ok(OneofScanState { seen: b, tags: st.tags }),
            Err(m) => Err(m),
        }
    } else {
        match tags_attr_spec(e) {
            Err(m) => Err(m),
            Ok(Some(ts)) => if st.tags is Some {
                Err("duplicate tags attributes"@)
            } else {
                Ok(OneofScanState { seen: st.seen, tags: Some(ts) })
            },
            Ok(None) => Ok(st),
        }
    }
}

/// The oneof classifier's scan over a group, in order.
pub open spec fn oneof_scan(g: Seq<AnnotationEntry>, st: OneofScanState) -> Result<
    OneofScanState,
    Seq<char>,
>
    decreases g.len(),
{
    if g.len() == 0 {
        Ok(st)
    } else {
        match oneof_step(st, g[0]) {
            Ok(st2) => oneof_scan(g.drop_first(), st2),
            Err(m) => Err(m),
        }
    }
}

/// What the oneof classifier returns for a group: the declared,
/// non-empty tag set.
pub open spec fn classify_oneof(g: Seq<AnnotationEntry>) -> Result<Option<Seq<u32>>, Seq<char>> {
    match oneof_scan(g, OneofScanState { seen: false, tags: None }) {
        Err(m) => Err(m),
        Ok(st) => if !st.seen {
            Ok(None)
        } else {
            match st.tags {
                Some(ts) => if ts.len() == 0 {
                    Err(missing_tags_msg())
                } else {
                    Ok(Some(ts))
                },
                None => Err(missing_tags_msg()),
            }
        },
    }
}

/// The running state of the group classifier's scan.
pub struct GroupScan {
    /// Whether the group marker was seen.
    pub seen: bool,
    /// The explicit tag seen so far.
    pub tag: Option<u32>,
}

/// One step of the group classifier's scan over a group of entries.
pub open spec fn group_step(st: GroupScan, e: AnnotationEntry) -> Result<GroupScan, Seq<char>> {
    if is_word("group"@, e) {
        match set_flag_spec(st.seen, "duplicate group attribute"@) {
            Ok(b) => Ok(GroupScan { seen: b, tag: st.tag }),
            Err(m) => Err(m),
        }
    } else {
        match tag_attr_spec(e) {
            Err(m) => Err(m),
            Ok(Some(t)) => match set_once_spec(st.tag, t, "duplicate tag attributes"@) {
                Ok(s) => Ok(GroupScan { seen: st.seen, tag: s }),
                Err(m) => Err(m),
            },
            Ok(None) => Ok(st),
        }
    }
}

/// The group classifier's scan over a group of entries, in order.
pub open spec fn group_scan(g: Seq<AnnotationEntry>, st: GroupScan) -> Result<GroupScan, Seq<char>>
    decreases g.len(),
{
    if g.len() == 0 {
        Ok(st)
    } else {
        match group_step(st, g[0]) {
            Ok(st2) => group_scan(g.drop_first(), st2),
            Err(m) => Err(m),
        }
    }
}

/// What the group classifier returns for a group of entries.
pub open spec fn classify_group_kind(g: Seq<AnnotationEntry>, cursor: Option<u32>) -> Result<
    Option<GroupField>,
    Seq<char>,
> {
    match group_scan(g, GroupScan { seen: false, tag: None }) {
        Err(m) => Err(m),
        Ok(st) => if !st.seen {
            Ok(None)
        } else {
            match resolve_tag(st.tag, cursor) {
                Err(m) => Err(m),
                Ok(t) => Ok(Some(GroupField { tag: t })),
            }
        },
    }
}

/// Kind classification of one group, in the fixed priority order
/// scalar, message, map, oneof, group: the first classifier that
/// recognizes the group wins.
pub open spec fn classify(g: Seq<AnnotationEntry>, cursor: Option<u32>) -> Result<
    Option<FieldModel>,
    Seq<char>,
> {
    match classify_scalar(g, cursor) {
        Err(m) => Err(m),
        Ok(Some(f)) => Ok(Some(FieldModel::Scalar(f))),
        Ok(None) => match classify_message(g, cursor) {
            Err(m) => Err(m),
            Ok(Some(f)) => Ok(Some(FieldModel::Message(f))),
            Ok(None) => match classify_map(g, cursor) {
                Err(m) => Err(m),
                Ok(Some(f)) => Ok(Some(FieldModel::Mapping(f))),
                Ok(None) => match classify_oneof(g) {
                    Err(m) => Err(m),
                    Ok(Some(ts)) => Ok(Some(FieldModel::Oneof(ts))),
                    Ok(None) => match classify_group_kind(g, cursor) {
                        Err(m) => Err(m),
                        Ok(Some(f)) => Ok(Some(FieldModel::Group(f))),
                        Ok(None) => Ok(None),
                    },
                },
            },
        },
    }
}

/// Kind classification restricted to a oneof alternative: scalar,
/// message, map, group; a oneof cannot nest another oneof. The wire
/// position of an alternative is governed by the oneof's declared
/// tag set, so a group without an explicit tag is admitted with the
/// placeholder tag zero.
pub open spec fn classify_restricted(g: Seq<AnnotationEntry>) -> Result<
    Option<FieldModel>,
    Seq<char>,
> {
    match classify_scalar(g, Some(0u32)) {
        Err(m) => Err(m),
        Ok(Some(f)) => Ok(Some(FieldModel::Scalar(f))),
        Ok(None) => match classify_message(g, Some(0u32)) {
            Err(m) => Err(m),
            Ok(Some(f)) => Ok(Some(FieldModel::Message(f))),
            Ok(None) => match classify_map(g, Some(0u32)) {
                Err(m) => Err(m),
                Ok(Some(f)) => Ok(Some(FieldModel::Mapping(f))),
                Ok(None) => match classify_group_kind(g, Some(0u32)) {
                    Err(m) => Err(m),
                    Ok(Some(f)) => Ok(Some(FieldModel::Group(f))),
                    Ok(None) => Ok(None),
                },
            },
        },
    }
}

/// The group contains the bare ignore marker.
pub open spec fn has_ignore(g: Seq<AnnotationEntry>) -> bool {
    exists|i: int| 0 <= i < g.len() && is_word("ignore"@, g[i])
}

/// The wire tags a field model claims.
pub open spec fn model_tags(m: FieldModel) -> Seq<u32> {
    match m {
        FieldModel::Scalar(s) => seq![s.tag],
        FieldModel::Message(f) => seq![f.tag],
        FieldModel::Mapping(f) => seq![f.tag],
        FieldModel::Oneof(ts) => ts,
        FieldModel::Group(f) => seq![f.tag],
        FieldModel::Ignore => Seq::empty(),
    }
}

/// The largest element of a non-empty tag sequence.
pub open spec fn seq_max(s: Seq<u32>) -> u32
    recommends
        s.len() > 0,
    decreases s.len(),
{
    if s.len() <= 1 {
        if s.len() == 1 {
            s[0]
        } else {
            0
        }
    } else {
        let m = seq_max(s.drop_first());
        if s[0] >= m {
            s[0]
        } else {
            m
        }
    }
}

/// The inferred-tag cursor after a descriptor: one greater than the
/// largest claimed tag; an ignored field leaves it unchanged.
pub open spec fn advance(cursor: Option<u32>, m: FieldModel) -> Result<Option<u32>, Seq<char>> {
    if m is Ignore {
        Ok(cursor)
    } else {
        let mx = seq_max(model_tags(m));
        if mx == u32::MAX {
            Err(tag_overflow_msg())
        } else {
            Ok(Some((mx + 1) as u32))
        }
    }
}

/// What `Field::new` produces from the member's annotation groups:
/// each group in order is either the ignore marker or classified by
/// the first matching kind; any group after an ignore marker is a
/// conflict; the cursor advances past each claimed tag.
pub open spec fn new_spec(
    groups: Seq<Result<Seq<AnnotationEntry>, Seq<char>>>,
    cursor: Option<u32>,
    ignore: bool,
) -> Result<Seq<FieldModel>, Seq<char>>
    decreases groups.len(),
{
    if groups.len() == 0 {
        Ok(Seq::empty())
    } else {
        match groups[0] {
            Err(m) => Err(m),
            Ok(g) => if ignore {
                Err(ignore_conflict_msg())
            } else if has_ignore(g) {
                match new_spec(groups.drop_first(), cursor, true) {
                    Ok(r) => Ok(seq![FieldModel::Ignore] + r),
                    Err(m) => Err(m),
                }
            } else {
                match classify(g, cursor) {
                    Err(m) => Err(m),
                    Ok(None) => Err(no_type_msg()),
                    Ok(Some(f)) => match advance(cursor, f) {
                        Err(m) => Err(m),
                        Ok(c2) => match new_spec(groups.drop_first(), c2, ignore) {
                            Ok(r) => Ok(seq![f] + r),
                            Err(m) => Err(m),
                        },
                    },
                }
            },
        }
    }
}

/// What `Field::new_oneof` produces: all schema attachments flattened
/// into one group, classified in the oneof-restricted order.
pub open spec fn new_oneof_spec(attrs: Seq<Attribute>) -> Result<Option<FieldModel>, Seq<char>> {
    match flat_entries(attrs) {
        Err(m) => Err(m),
        Ok(g) => match classify_restricted(g) {
            Err(m) => Err(m),
            Ok(None) => Err(no_type_oneof_msg()),
            Ok(Some(f)) => Ok(Some(f)),
        },
    }
}

/// A classified group always claims at least one tag.
pub proof fn lemma_classified_tags_nonempty(g: Seq<AnnotationEntry>, cursor: Option<u32>)
    ensures
        classify(g, cursor) matches Ok(Some(m)) ==> model_tags(m).len() > 0,
{
    match classify(g, cursor) {
        Ok(Some(FieldModel::Oneof(ts))) => {
            assert(classify_oneof(g) == Ok::<Option<Seq<u32>>, Seq<char>>(Some(ts)));
            assert(ts.len() > 0);
        },
        _ => {},
    }
}

/// The scalar type marker an entry carries, if it is one.
fn scalar_ty_name(e: &AnnotationEntry) -> (r: Option<String>)
    ensures
        r == scalar_ty_of(*e),
{
    match e {
        AnnotationEntry::Marker(n) => {
            let s = n.as_str();
            if crate::str_eq(s, "double") || crate::str_eq(s, "float") || crate::str_eq(
                s,
                "int32",
            ) || crate::str_eq(s, "int64") || crate::str_eq(s, "uint32") || crate::str_eq(
                s,
                "uint64",
            ) || crate::str_eq(s, "sint32") || crate::str_eq(s, "sint64") || crate::str_eq(
                s,
                "fixed32",
            ) || crate::str_eq(s, "fixed64") || crate::str_eq(s, "sfixed32") || crate::str_eq(
                s,
                "sfixed64",
            ) || crate::str_eq(s, "bool") || crate::str_eq(s, "string") || crate::str_eq(
                s,
                "bytes",
            ) || crate::str_eq(s, "enumeration") {
                Some(n.clone())
            } else {
                None
            }
        },
        _ => None,
    }
}

impl ScalarField {
    /// The scalar classifier: matches a group carrying a scalar type
    /// marker, validating tag, label and packed attributes.
    #[verifier::loop_isolation(false)]
    pub fn new(attrs: &Vec<AnnotationEntry>, inferred_tag: Option<u32>) -> (r: Result<
        Option<ScalarField>,
        Error,
    >)
        ensures
            classify_scalar(attrs@, inferred_tag) matches Ok(v) ==> r matches Ok(rv) && rv == v,
            classify_scalar(attrs@, inferred_tag) matches Err(m) ==> r matches Err(e) && e.msg@
                == m,
    {
        let mut ty_name: Option<String> = None;
        let mut tag: Option<u32> = None;
        let mut label: Option<Label> = None;
        let mut packed: Option<bool> = None;
        let n = attrs.len();
        let mut i: usize = 0;
        proof {
            assert(attrs@.skip(0) =~= attrs@);
        }
        while i < n
            invariant
                i <= n,
                scalar_scan(attrs@, init_scalar_scan()) == scalar_scan(
                    attrs@.skip(i as int),
                    (ScalarScan { ty_name, tag, label, packed }),
                ),
            decreases n - i,
        {
            proof {
                crate::lemma_skip_step(attrs@, i as int);
            }
            let ghost st_old = ScalarScan { ty_name, tag, label, packed };
            let e = &attrs[i];
            match scalar_ty_name(e) {
                Some(nm) => match set_option(&mut ty_name, nm, "duplicate type attributes") {
                    Ok(_) => {},
                    Err(er) => {
                        return Err(er);
                    },
                },
                None => match tag_attr(e) {
                    Err(er) => {
                        return Err(er);
                    },
                    Ok(Some(t)) => match set_option(&mut tag, t, "duplicate tag attributes") {
                        Ok(_) => {},
                        Err(er) => {
                            return Err(er);
                        },
                    },
                    Ok(None) => match Label::from_attr(e) {
                        Some(l) => match set_option(&mut label, l, "duplicate label attributes") {
                            Ok(_) => {},
                            Err(er) => {
                                return Err(er);
                            },
                        },
                        None => match bool_attr("packed", e) {
                            Err(er) => {
                                return Err(er);
                            },
                            Ok(Some(b)) => match set_option(
                                &mut packed,
                                b,
                                "duplicate packed attributes",
                            ) {
                                Ok(_) => {},
                                Err(er) => {
                                    return Err(er);
                                },
                            },
                            Ok(None) => {},
                        },
                    },
                },
            }
            proof {
                assert(scalar_step(st_old, attrs@[i as int]) == Ok::<ScalarScan, Seq<char>>(
                    ScalarScan { ty_name, tag, label, packed },
                ));
            }
            i += 1;
        }
        proof {
            assert(attrs@.skip(n as int) =~= Seq::<AnnotationEntry>::empty());
        }
        match ty_name {
            None => Ok(None),
            Some(nm) => {
                let t: u32 = match tag {
                    Some(t) => t,
                    None => match inferred_tag {
                        Some(t) => t,
                        None => {
                            return Err(Error::new("missing tag attribute"));
                        },
                    },
                };
                Ok(Some(ScalarField { ty_name: nm, label, packed, tag: t }))
            },
        }
    }
}

impl MessageField {
    /// The message classifier: matches a group carrying the bare
    /// message marker, validating tag and label attributes.
    #[verifier::loop_isolation(false)]
    pub fn new(attrs: &Vec<AnnotationEntry>, inferred_tag: Option<u32>) -> (r: Result<
        Option<MessageField>,
        Error,
    >)
        ensures
            classify_message(attrs@, inferred_tag) matches Ok(v) ==> r matches Ok(rv) && rv == v,
            classify_message(attrs@, inferred_tag) matches Err(m) ==> r matches Err(e) && e.msg@
                == m,
    {
        let mut seen = false;
        let mut tag: Option<u32> = None;
        let mut label: Option<Label> = None;
        let n = attrs.len();
        let mut i: usize = 0;
        proof {
            assert(attrs@.skip(0) =~= attrs@);
        }
        while i < n
            invariant
                i <= n,
                message_scan(attrs@, (MessageScan { seen: false, tag: None, label: None }))
                    == message_scan(attrs@.skip(i as int), (MessageScan { seen, tag, label })),
            decreases n - i,
        {
            proof {
                crate::lemma_skip_step(attrs@, i as int);
            }
            let ghost st_old = MessageScan { seen, tag, label };
            let e = &attrs[i];
            if word_attr("message", e) {
                match set_bool(&mut seen, "duplicate message attribute") {
                    Ok(_) => {},
                    Err(er) => {
                        return Err(er);
                    },
                }
            } else {
                match tag_attr(e) {
                    Err(er) => {
                        return Err(er);
                    },
                    Ok(Some(t)) => match set_option(&mut tag, t, "duplicate tag attributes") {
                        Ok(_) => {},
                        Err(er) => {
                            return Err(er);
                        },
                    },
                    Ok(None) => match Label::from_attr(e) {
                        Some(l) => match set_option(&mut label, l, "duplicate label attributes") {
                            Ok(_) => {},
                            Err(er) => {
                                return Err(er);
                            },
                        },
                        None => {},
                    },
                }
            }
            proof {
                assert(message_step(st_old, attrs@[i as int]) == Ok::<MessageScan, Seq<char>>(
                    MessageScan { seen, tag, label },
                ));
            }
            i += 1;
        }
        proof {
            assert(attrs@.skip(n as int) =~= Seq::<AnnotationEntry>::empty());
        }
        if !seen {
            return Ok(None);
        }
        let t: u32 = match tag {
            Some(t) => t,
            None => match inferred_tag {
                Some(t) => t,
                None => {
                    return Err(Error::new("missing tag attribute"));
                },
            },
        };
        Ok(Some(MessageField { label, tag: t }))
    }
}

impl MapField {
    /// The map classifier: matches a group carrying a map attribute,
    /// validating the tag attribute.
    #[verifier::loop_isolation(false)]
    pub fn new(attrs: &Vec<AnnotationEntry>, inferred_tag: Option<u32>) -> (r: Result<
        Option<MapField>,
        Error,
    >)
        ensures
            classify_map(attrs@, inferred_tag) matches Ok(v) ==> r matches Ok(rv) && rv == v,
            classify_map(attrs@, inferred_tag) matches Err(m) ==> r matches Err(e) && e.msg@ == m,
    {
        let mut seen = false;
        let mut tag: Option<u32> = None;
        let n = attrs.len();
        let mut i: usize = 0;
        proof {
            assert(attrs@.skip(0) =~= attrs@);
        }
        while i < n
            invariant
                i <= n,
                map_scan(attrs@, (MapScan { seen: false, tag: None })) == map_scan(
                    attrs@.skip(i as int),
                    (MapScan { seen, tag }),
                ),
            decreases n - i,
        {
            proof {
                crate::lemma_skip_step(attrs@, i as int);
            }
            let ghost st_old = MapScan { seen, tag };
            let e = &attrs[i];
            if name_matches(e, "map") {
                match set_bool(&mut seen, "duplicate map attribute") {
                    Ok(_) => {},
                    Err(er) => {
                        return Err(er);
                    },
                }
            } else {
                match tag_attr(e) {
                    Err(er) => {
                        return Err(er);
                    },
                    Ok(Some(t)) => match set_option(&mut tag, t, "duplicate tag attributes") {
                        Ok(_) => {},
                        Err(er) => {
                            return Err(er);
                        },
                    },
                    Ok(None) => {},
                }
            }
            proof {
                assert(map_step(st_old, attrs@[i as int]) == Ok::<MapScan, Seq<char>>(
                    MapScan { seen, tag },
                ));
            }
            i += 1;
        }
        proof {
            assert(attrs@.skip(n as int) =~= Seq::<AnnotationEntry>::empty());
        }
        if !seen {
            return Ok(None);
        }
        let t: u32 = match tag {
            Some(t) => t,
            None => match inferred_tag {
                Some(t) => t,
                None => {
                    return Err(Error::new("missing tag attribute"));
                },
            },
        };
        Ok(Some(MapField { tag: t }))
    }
}

/// The specification-level value of an optional tag list.
pub open spec fn opt_tags_view(o: Option<Vec<u32>>) -> Option<Seq<u32>> {
    match o {
        Some(v) => Some(v@),
        None => None,
    }
}

impl OneofField {
    /// The oneof classifier: matches a group carrying a oneof
    /// attribute, requiring a non-empty declared tag list.
    #[verifier::loop_isolation(false)]
    pub fn new(attrs: &Vec<AnnotationEntry>) -> (r: Result<Option<OneofField>, Error>)
        ensures
            classify_oneof(attrs@) matches Ok(v) ==> (match v {
                Some(ts) => r matches Ok(rv) && rv matches Some(f) && f.tags@ == ts,
                None => r matches Ok(rv) && rv is None,
            }),
            classify_oneof(attrs@) matches Err(m) ==> r matches Err(e) && e.msg@ == m,
    {
        let mut seen = false;
        let mut tags: Option<Vec<u32>> = None;
        let n = attrs.len();
        let mut i: usize = 0;
        proof {
            assert(attrs@.skip(0) =~= attrs@);
        }
        while i < n
            invariant
                i <= n,
                oneof_scan(attrs@, (OneofScanState { seen: false, tags: None })) == oneof_scan(
                    attrs@.skip(i as int),
                    (OneofScanState { seen, tags: opt_tags_view(tags) }),
                ),
            decreases n - i,
        {
            proof {
                crate::lemma_skip_step(attrs@, i as int);
            }
            let ghost st_old = OneofScanState { seen, tags: opt_tags_view(tags) };
            let e = &attrs[i];
            if name_matches(e, "oneof") {
                match set_bool(&mut seen, "duplicate oneof attribute") {
                    Ok(_) => {},
                    Err(er) => {
                        return Err(er);
                    },
                }
            } else {
                match tags_attr(e) {
                    Err(er) => {
                        return Err(er);
                    },
                    Ok(Some(ts)) => {
                        if tags.is_some() {
                            return Err(Error::new("duplicate tags attributes"));
                        }
                        tags = Some(ts);
                    },
                    Ok(None) => {},
                }
            }
            proof {
                assert(oneof_step(st_old, attrs@[i as int]) == Ok::<OneofScanState, Seq<char>>(
                    OneofScanState { seen, tags: opt_tags_view(tags) },
                ));
            }
            i += 1;
        }
        proof {
            assert(attrs@.skip(n as int) =~= Seq::<AnnotationEntry>::empty());
        }
        if !seen {
            return Ok(None);
        }
        match tags {
            Some(ts) => {
                if ts.len() == 0 {
                    Err(Error::new("missing tags attribute"))
                } else {
                    Ok(Some(OneofField { tags: ts }))
                }
            },
            None => Err(Error::new("missing tags attribute")),
        }
    }
}

impl GroupField {
    /// The group classifier: matches a group of entries carrying the
    /// bare group marker, validating the tag attribute.
    #[verifier::loop_isolation(false)]
    pub fn new(attrs: &Vec<AnnotationEntry>, inferred_tag: Option<u32>) -> (r: Result<
        Option<GroupField>,
        Error,
    >)
        ensures
            classify_group_kind(attrs@, inferred_tag) matches Ok(v) ==> r matches Ok(rv) && rv
                == v,
            classify_group_kind(attrs@, inferred_tag) matches Err(m) ==> r matches Err(e)
                && e.msg@ == m,
    {
        let mut seen = false;
        let mut tag: Option<u32> = None;
        let n = attrs.len();
        let mut i: usize = 0;
        proof {
            assert(attrs@.skip(0) =~= attrs@);
        }
        while i < n
            invariant
                i <= n,
                group_scan(attrs@, (GroupScan { seen: false, tag: None })) == group_scan(
                    attrs@.skip(i as int),
                    (GroupScan { seen, tag }),
                ),
            decreases n - i,
        {
            proof {
                crate::lemma_skip_step(attrs@, i as int);
            }
            let ghost st_old = GroupScan { seen, tag };
            let e = &attrs[i];
            if word_attr("group", e) {
                match set_bool(&mut seen, "duplicate group attribute") {
                    Ok(_) => {},
                    Err(er) => {
                        return Err(er);
                    },
                }
            } else {
                match tag_attr(e) {
                    Err(er) => {
                        return Err(er);
                    },
                    Ok(Some(t)) => match set_option(&mut tag, t, "duplicate tag attributes") {
                        Ok(_) => {},
                        Err(er) => {
                            return Err(er);
                        },
                    },
                    Ok(None) => {},
                }
            }
            proof {
                assert(group_step(st_old, attrs@[i as int]) == Ok::<GroupScan, Seq<char>>(
                    GroupScan { seen, tag },
                ));
            }
            i += 1;
        }
        proof {
            assert(attrs@.skip(n as int) =~= Seq::<AnnotationEntry>::empty());
        }
        if !seen {
            return Ok(None);
        }
        let t: u32 = match tag {
            Some(t) => t,
            None => match inferred_tag {
                Some(t) => t,
                None => {
                    return Err(Error::new("missing tag attribute"));
                },
            },
        };
        Ok(Some(GroupField { tag: t }))
    }
}

/// The group contains the bare ignore marker, executably.
#[verifier::loop_isolation(false)]
fn group_has_ignore(entries: &Vec<AnnotationEntry>) -> (r: bool)
    ensures
        r == has_ignore(entries@),
{
    let n = entries.len();
    let mut i: usize = 0;
    while i < n
        invariant
            i <= n,
            forall|j: int| 0 <= j < i ==> !is_word("ignore"@, entries@[j]),
        decreases n - i,
    {
        if word_attr("ignore", &entries[i]) {
            return true;
        }
        i += 1;
    }
    false
}

/// Kind classification of one group in the full priority order,
/// executably.
fn classify_entries(entries: &Vec<AnnotationEntry>, cursor: Option<u32>) -> (r: Result<
    Option<Field>,
    Error,
>)
    ensures
        classify(entries@, cursor) matches Ok(v) ==> (match v {
            Some(m) => r matches Ok(rv) && rv matches Some(f) && field_model(f) == m,
            None => r matches Ok(rv) && rv is None,
        }),
        classify(entries@, cursor) matches Err(msg) ==> r matches Err(e) && e.msg@ == msg,
{
    match ScalarField::new(entries, cursor) {
        Err(e) => Err(e),
        Ok(Some(f)) => Ok(Some(Field::Scalar(f))),
        Ok(None) => match MessageField::new(entries, cursor) {
            Err(e) => Err(e),
            Ok(Some(f)) => Ok(Some(Field::Message(f))),
            Ok(None) => match MapField::new(entries, cursor) {
                Err(e) => Err(e),
                Ok(Some(f)) => Ok(Some(Field::Mapping(f))),
                Ok(None) => match OneofField::new(entries) {
                    Err(e) => Err(e),
                    Ok(Some(f)) => Ok(Some(Field::Oneof(f))),
                    Ok(None) => match GroupField::new(entries, cursor) {
                        Err(e) => Err(e),
                        Ok(Some(f)) => Ok(Some(Field::Group(f))),
                        Ok(None) => Ok(None),
                    },
                },
            },
        },
    }
}

/// The largest element of a non-empty tag vector.
#[verifier::loop_isolation(false)]
fn vec_max(v: &Vec<u32>) -> (r: u32)
    requires
        v@.len() > 0,
    ensures
        r == seq_max(v@),
{
    let n = v.len();
    let mut r = v[n - 1];
    proof {
        assert(v@.skip(n - 1) =~= seq![v@[n as int - 1]]);
    }
    let mut i: usize = n - 1;
    while i > 0
        invariant
            i < n,
            r == seq_max(v@.skip(i as int)),
        decreases i,
    {
        i -= 1;
        proof {
            crate::lemma_skip_step(v@, i as int);
        }
        if v[i] >= r {
            r = v[i];
        }
    }
    proof {
        assert(v@.skip(0) =~= v@);
    }
    r
}

impl Field {
    /// Creates a new list of `Field`s from the member's raw
    /// annotation attachments.
    ///
    /// Groups are consumed in encounter order; each is either the
    /// ignore marker or classified by the first matching kind in the
    /// fixed priority order scalar, message, map, oneof, group. The
    /// inferred-tag cursor advances past each claimed tag. Any group
    /// following an ignore marker is a conflict.
    #[verifier::loop_isolation(false)]
    pub fn new(
        field_ty: MemberType,
        attrs: Vec<Attribute>,
        inferred_tag: Option<u32>,
        options: &Options,
    ) -> (r: Result<Vec<Field>, Error>)
        ensures
            new_spec(nested_groups(attrs@), inferred_tag, false) matches Ok(models) ==> r matches
                Ok(v) && models_of(v@) == models,
            new_spec(nested_groups(attrs@), inferred_tag, false) matches Err(m) ==> r matches Err(
                e,
            ) && e.msg@ == m,
    {
        let _ = field_ty;
        let _ = options;
        let mut groups = prost_nested_attrs(attrs);
        let mut cursor = inferred_tag;
        let mut ignore = false;
        let mut fields: Vec<Field> = Vec::new();
        proof {
            assert(models_of(fields@) =~= Seq::<FieldModel>::empty());
        }
        while groups.len() > 0
            invariant
                new_spec(nested_groups(attrs@), inferred_tag, false) == (match new_spec(
                    groups_view(groups@),
                    cursor,
                    ignore,
                ) {
                    Ok(rest) => Ok::<Seq<FieldModel>, Seq<char>>(models_of(fields@) + rest),
                    Err(m) => Err::<Seq<FieldModel>, Seq<char>>(m),
                }),
            decreases groups@.len(),
        {
            let ghost groups_old = groups@;
            let ghost fields_old = fields@;
            let g = groups.remove(0);
            proof {
                assert(groups@ =~= groups_old.drop_first());
                assert(g == groups_old[0]);
                assert(groups_view(groups_old)[0] == group_view(g));
                assert(groups_view(groups_old).drop_first() =~= groups_view(groups@));
            }
            match g {
                Err(e) => {
                    return Err(e);
                },
                Ok(entries) => {
                    if ignore {
                        return Err(
                            Error::new("ignore attribute used but other attributes were found"),
                        );
                    }
                    if group_has_ignore(&entries) {
                        fields.push(Field::Ignore);
                        ignore = true;
                        proof {
                            match new_spec(groups_view(groups@), cursor, ignore) {
                                Ok(rest) => {
                                    assert(models_of(fields@) =~= models_of(fields_old).push(
                                        FieldModel::Ignore,
                                    ));
                                    assert(models_of(fields_old) + (seq![FieldModel::Ignore]
                                        + rest) =~= models_of(fields@) + rest);
                                },
                                Err(_) => {},
                            }
                        }
                    } else {
                        match classify_entries(&entries, cursor) {
                            Err(e) => {
                                return Err(e);
                            },
                            Ok(None) => {
                                return Err(Error::new("no type attribute"));
                            },
                            Ok(Some(field)) => {
                                proof {
                                    lemma_classified_tags_nonempty(entries@, cursor);
                                }
                                let ts = field.tags();
                                let mx = vec_max(&ts);
                                if mx == u32::MAX {
                                    return Err(Error::new("tag overflow"));
                                }
                                let ghost model = field_model(field);
                                cursor = Some(mx + 1);
                                fields.push(field);
                                proof {
                                    match new_spec(groups_view(groups@), cursor, ignore) {
                                        Ok(rest) => {
                                            assert(models_of(fields@) =~= models_of(
                                                fields_old,
                                            ).push(model));
                                            assert(models_of(fields_old) + (seq![model] + rest)
                                                =~= models_of(fields@) + rest);
                                        },
                                        Err(_) => {},
                                    }
                                }
                            },
                        }
                    }
                },
            }
        }
        proof {
            assert(groups_view(groups@) =~= Seq::<
                Result<Seq<AnnotationEntry>, Seq<char>>,
            >::empty());
            assert(models_of(fields@) + Seq::<FieldModel>::empty() =~= models_of(fields@));
        }
        Ok(fields)
    }

    /// Creates a new oneof `Field` from the member's raw annotation
    /// attachments, with the restricted kind order scalar, message,
    /// map, group; an explicit tag is honored, else zero stands in.
    pub fn new_oneof(attrs: Vec<Attribute>, options: &Options) -> (r: Result<
        Option<Field>,
        Error,
    >)
        ensures
            new_oneof_spec(attrs@) matches Ok(om) ==> (match om {
                Some(m) => r matches Ok(ro) && ro matches Some(f) && field_model(f) == m,
                None => r matches Ok(ro) && ro is None,
            }),
            new_oneof_spec(attrs@) matches Err(msg) ==> r matches Err(e) && e.msg@ == msg,
    {
        let _ = options;
        let entries = match prost_attrs(attrs) {
            Ok(es) => es,
            Err(e) => {
                return Err(e);
            },
        };
        match ScalarField::new(&entries, Some(0)) {
            Err(e) => Err(e),
            Ok(Some(f)) => Ok(Some(Field::Scalar(f))),
            Ok(None) => match MessageField::new(&entries, Some(0)) {
                Err(e) => Err(e),
                Ok(Some(f)) => Ok(Some(Field::Message(f))),
                Ok(None) => match MapField::new(&entries, Some(0)) {
                    Err(e) => Err(e),
                    Ok(Some(f)) => Ok(Some(Field::Mapping(f))),
                    Ok(None) => match GroupField::new(&entries, Some(0)) {
                        Err(e) => Err(e),
                        Ok(Some(f)) => Ok(Some(Field::Group(f))),
                        Ok(None) => Err(Error::new("no type attribute for oneof field")),
                    },
                },
            },
        }
    }

    /// The wire tags this descriptor claims: none for an ignored
    /// field, one for scalar, message, map and group, the declared
    /// set for oneof.
    #[verifier::loop_isolation(false)]
    pub fn tags(&self) -> (r: Vec<u32>)
        ensures
            r@ == model_tags(field_model(*self)),
    {
        match self {
            Field::Scalar(s) => {
                let mut v: Vec<u32> = Vec::new();
                v.push(s.tag);
                proof {
                    assert(v@ =~= seq![s.tag]);
                }
                v
            },
            Field::Message(f) => {
                let mut v: Vec<u32> = Vec::new();
                v.push(f.tag);
                proof {
                    assert(v@ =~= seq![f.tag]);
                }
                v
            },
            Field::Mapping(f) => {
                let mut v: Vec<u32> = Vec::new();
                v.push(f.tag);
                proof {
                    assert(v@ =~= seq![f.tag]);
                }
                v
            },
            Field::Oneof(o) => {
                let n = o.tags.len();
                let mut v: Vec<u32> = Vec::new();
                let mut i: usize = 0;
                while i < n
                    invariant
                        i <= n,
                        v@ =~= o.tags@.take(i as int),
                    decreases n - i,
                {
                    v.push(o.tags[i]);
                    i += 1;
                }
                proof {
                    assert(o.tags@.take(n as int) =~= o.tags@);
                }
                v
            },
            Field::Group(f) => {
                let mut v: Vec<u32> = Vec::new();
                v.push(f.tag);
                proof {
                    assert(v@ =~= seq![f.tag]);
                }
                v
            },
            Field::Ignore => Vec::new(),
        }
    }

    /// A statement which encodes the field: nothing for an ignored
    /// field, else the matched kind's encoder.
    pub fn encode(&self) -> (r: Fragment)
        ensures
            r == encode_spec(*self),
    {
        match self {
            Field::Scalar(_) => Fragment::Delegate(FieldKind::Scalar),
            Field::Message(_) => Fragment::Delegate(FieldKind::Message),
            Field::Mapping(_) => Fragment::Delegate(FieldKind::Mapping),
            Field::Oneof(_) => Fragment::Delegate(FieldKind::Oneof),
            Field::Group(_) => Fragment::Delegate(FieldKind::Group),
            Field::Ignore => Fragment::Empty,
        }
    }

    /// An expression which merges a decoded value into the field:
    /// nothing for an ignored field, else the matched kind's merger.
    pub fn merge(&self) -> (r: Fragment)
        ensures
            r == merge_spec(*self),
    {
        match self {
            Field::Scalar(_) => Fragment::Delegate(FieldKind::Scalar),
            Field::Message(_) => Fragment::Delegate(FieldKind::Message),
            Field::Mapping(_) => Fragment::Delegate(FieldKind::Mapping),
            Field::Oneof(_) => Fragment::Delegate(FieldKind::Oneof),
            Field::Group(_) => Fragment::Delegate(FieldKind::Group),
            Field::Ignore => Fragment::Empty,
        }
    }

    /// An expression for the encoded length of the field: the
    /// constant zero for an ignored field, else the matched kind's.
    pub fn encoded_len(&self) -> (r: Fragment)
        ensures
            r == encoded_len_spec(*self),
    {
        match self {
            Field::Scalar(_) => Fragment::Delegate(FieldKind::Scalar),
            Field::Mapping(_) => Fragment::Delegate(FieldKind::Mapping),
            Field::Message(_) => Fragment::Delegate(FieldKind::Message),
            Field::Oneof(_) => Fragment::Delegate(FieldKind::Oneof),
            Field::Group(_) => Fragment::Delegate(FieldKind::Group),
            Field::Ignore => Fragment::Zero,
        }
    }

    /// A statement which clears the field: nothing for an ignored
    /// field, else the matched kind's.
    pub fn clear(&self) -> (r: Fragment)
        ensures
            r == clear_spec(*self),
    {
        match self {
            Field::Scalar(_) => Fragment::Delegate(FieldKind::Scalar),
            Field::Message(_) => Fragment::Delegate(FieldKind::Message),
            Field::Mapping(_) => Fragment::Delegate(FieldKind::Mapping),
            Field::Oneof(_) => Fragment::Delegate(FieldKind::Oneof),
            Field::Group(_) => Fragment::Delegate(FieldKind::Group),
            Field::Ignore => Fragment::Empty,
        }
    }

    /// The field's default value: the scalar kind supplies its own;
    /// every other kind takes the member type's generic zero value.
    pub fn default(&self) -> (r: Fragment)
        ensures
            r == default_spec(*self),
    {
        match self {
            Field::Scalar(_) => Fragment::Delegate(FieldKind::Scalar),
            _ => Fragment::GenericDefault,
        }
    }

    /// The fragment implementing debug for the field: scalar and map
    /// wrap the value in their helper wrapper, message delegates, and
    /// every other kind is a plain reference to the value.
    pub fn debug(&self) -> (r: Fragment)
        ensures
            r == debug_spec(*self),
    {
        match self {
            Field::Scalar(_) => Fragment::DelegateWrapped(FieldKind::Scalar),
            Field::Mapping(_) => Fragment::DelegateWrapped(FieldKind::Mapping),
            Field::Message(_) => Fragment::Delegate(FieldKind::Message),
            _ => Fragment::PlainRef,
        }
    }

    /// The accessor methods of the field: only scalar and map kinds
    /// produce any.
    pub fn methods(&self) -> (r: Option<Fragment>)
        ensures
            r == methods_spec(*self),
    {
        match self {
            Field::Scalar(_) => Some(Fragment::Delegate(FieldKind::Scalar)),
            Field::Mapping(_) => Some(Fragment::Delegate(FieldKind::Mapping)),
            _ => None,
        }
    }
}

/// The concrete kind whose external code generator a fragment
/// delegates to.
#[derive(Clone, Copy, Debug, PartialEq, Eq, Structural)]
pub enum FieldKind {
    /// The scalar kind.
    Scalar,
    /// The message kind.
    Message,
    /// The map kind.
    Mapping,
    /// The oneof kind.
    Oneof,
    /// The group kind.
    Group,
}

/// A symbolic code fragment produced by the dispatch operations: what
/// the dispatcher itself fixes, or a delegation to the matched kind's
/// external code generator.
#[derive(Clone, Copy, Debug, PartialEq, Eq, Structural)]
pub enum Fragment {
    /// No code at all.
    Empty,
    /// The constant zero, in length position.
    Zero,
    /// The member type's generic zero value.
    GenericDefault,
    /// A plain reference to the member's value.
    PlainRef,
    /// Delegation to the matched kind's generator.
    Delegate(FieldKind),
    /// Delegation, wrapping the value in the kind's helper wrapper.
    DelegateWrapped(FieldKind),
}

/// The kind a non-ignored descriptor matched.
pub open spec fn kind_of(f: Field) -> FieldKind
    recommends
        !(f is Ignore),
{
    match f {
        Field::Scalar(_) => FieldKind::Scalar,
        Field::Message(_) => FieldKind::Message,
        Field::Mapping(_) => FieldKind::Mapping,
        Field::Oneof(_) => FieldKind::Oneof,
        Field::Group(_) => FieldKind::Group,
        Field::Ignore => FieldKind::Scalar,
    }
}

/// What `Field::encode` returns.
pub open spec fn encode_spec(f: Field) -> Fragment {
    if f is Ignore {
        Fragment::Empty
    } else {
        Fragment::Delegate(kind_of(f))
    }
}

/// What `Field::merge` returns.
pub open spec fn merge_spec(f: Field) -> Fragment {
    if f is Ignore {
        Fragment::Empty
    } else {
        Fragment::Delegate(kind_of(f))
    }
}

/// What `Field::encoded_len` returns.
pub open spec fn encoded_len_spec(f: Field) -> Fragment {
    if f is Ignore {
        Fragment::Zero
    } else {
        Fragment::Delegate(kind_of(f))
    }
}

/// What `Field::clear` returns.
pub open spec fn clear_spec(f: Field) -> Fragment {
    if f is Ignore {
        Fragment::Empty
    } else {
        Fragment::Delegate(kind_of(f))
    }
}

/// What `Field::default` returns.
pub open spec fn default_spec(f: Field) -> Fragment {
    if f is Scalar {
        Fragment::Delegate(FieldKind::Scalar)
    } else {
        Fragment::GenericDefault
    }
}

/// What `Field::debug` returns.
pub open spec fn debug_spec(f: Field) -> Fragment {
    match f {
        Field::Scalar(_) => Fragment::DelegateWrapped(FieldKind::Scalar),
        Field::Mapping(_) => Fragment::DelegateWrapped(FieldKind::Mapping),
        Field::Message(_) => Fragment::Delegate(FieldKind::Message),
        _ => Fragment::PlainRef,
    }
}

/// What `Field::methods` returns.
pub open spec fn methods_spec(f: Field) -> Option<Fragment> {
    match f {
        Field::Scalar(_) => Some(Fragment::Delegate(FieldKind::Scalar)),
        Field::Mapping(_) => Some(Fragment::Delegate(FieldKind::Mapping)),
        _ => None,
    }
}

} // verus!
