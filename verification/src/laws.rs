//! The library's laws: properties of the parsers, the set-once
//! guards, and the group dispatch, stated over the same specification
//! functions the executable contracts use.

use vstd::prelude::*;
use crate::attrs::{bool_attr_spec, set_flag_spec, set_once_spec, tag_attr_spec, tags_attr_spec};
use crate::entry::{AnnotationEntry, entry_name};
use crate::error::{Describe, dup_msg};
use crate::field::{FieldModel, ScalarField, classify, has_ignore, ignore_conflict_msg,
    model_tags, new_spec, seq_max};

verus! {

/// A parser whose key differs from the entry's name reports no
/// match, never an error.
pub proof fn lemma_no_match(key: Seq<char>, e: AnnotationEntry)
    ensures
        entry_name(e) != key ==> bool_attr_spec(key, e) == Ok::<Option<bool>, Seq<char>>(None),
        entry_name(e) != "tag"@ ==> tag_attr_spec(e) == Ok::<Option<u32>, Seq<char>>(None),
        entry_name(e) != "tags"@ ==> tags_attr_spec(e) == Ok::<Option<Seq<u32>>, Seq<char>>(None),
{
}

/// A set-once slot accepts the first value; a second value fails
/// with an error embedding both values, in order.
pub proof fn lemma_set_once_twice<T: Describe>(a: T, b: T, msg: Seq<char>)
    ensures
        set_once_spec(None::<T>, a, msg) == Ok::<Option<T>, Seq<char>>(Some(a)),
        set_once_spec(Some(a), b, msg) == Err::<Option<T>, Seq<char>>(
            dup_msg(msg, a.describe_spec(), b.describe_spec()),
        ),
{
}

/// A set-once flag accepts the first set and rejects the second with
/// the given message; the flag holds after a successful set, and an
/// unchanged flag was already set.
pub proof fn lemma_set_flag_once(msg: Seq<char>)
    ensures
        set_flag_spec(false, msg) == Ok::<bool, Seq<char>>(true),
        set_flag_spec(true, msg) == Err::<bool, Seq<char>>(msg),
{
}

/// With the ignore marker in the first group, any further
/// well-formed group is a conflict error, raised before that group
/// is classified: the result does not depend on its contents.
pub proof fn lemma_ignore_conflict(
    groups: Seq<Result<Seq<AnnotationEntry>, Seq<char>>>,
    cursor: Option<u32>,
)
    requires
        groups.len() >= 2,
        groups[0] matches Ok(g) && has_ignore(g),
        groups[1] is Ok,
    ensures
        new_spec(groups, cursor, false) == Err::<Seq<FieldModel>, Seq<char>>(
            ignore_conflict_msg(),
        ),
{
    assert(groups.drop_first().len() >= 1);
    assert(groups.drop_first()[0] == groups[1]);
    assert(new_spec(groups.drop_first(), cursor, true) == Err::<Seq<FieldModel>, Seq<char>>(
        ignore_conflict_msg(),
    ));
}

/// After a first group classified as a scalar claiming tag `t`, the
/// rest of the member's groups are processed with the inferred-tag
/// cursor advanced to `t + 1`.
pub proof fn lemma_cursor_advance(
    groups: Seq<Result<Seq<AnnotationEntry>, Seq<char>>>,
    cursor: Option<u32>,
    s: ScalarField,
)
    requires
        groups.len() >= 1,
        groups[0] matches Ok(g) && !has_ignore(g) && classify(g, cursor) == Ok::<
            Option<FieldModel>,
            Seq<char>,
        >(Some(FieldModel::Scalar(s))),
        s.tag < u32::MAX,
    ensures
        new_spec(groups, cursor, false) == (match new_spec(
            groups.drop_first(),
            Some((s.tag + 1) as u32),
            false,
        ) {
            Ok(r) => Ok::<Seq<FieldModel>, Seq<char>>(seq![FieldModel::Scalar(s)] + r),
            Err(m) => Err::<Seq<FieldModel>, Seq<char>>(m),
        }),
{
    assert(model_tags(FieldModel::Scalar(s)) == seq![s.tag]);
    assert(seq_max(seq![s.tag]) == s.tag);
}

} // verus!
