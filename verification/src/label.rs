//! Field multiplicity: optional, required or repeated, with its
//! canonical name and marker-only parsing.

use vstd::prelude::*;
use crate::entry::{AnnotationEntry, is_word};
use crate::error::Describe;

verus! {

/// A field's declared multiplicity.
#[derive(Clone, Copy, Debug, PartialEq, Eq, Structural)]
pub enum Label {
    /// An optional field.
    Optional,
    /// A required field.
    Required,
    /// A repeated field.
    Repeated,
}

/// The canonical name of a label.
pub open spec fn label_name(l: Label) -> Seq<char> {
    match l {
        Label::Optional => "optional"@,
        Label::Required => "required"@,
        Label::Repeated => "repeated"@,
    }
}

/// What `Label::from_attr` returns: only a bare marker with one of
/// the three canonical names matches, checked in that fixed order.
pub open spec fn label_from_spec(e: AnnotationEntry) -> Option<Label> {
    if is_word("optional"@, e) {
        Some(Label::Optional)
    } else if is_word("required"@, e) {
        Some(Label::Required)
    } else if is_word("repeated"@, e) {
        Some(Label::Repeated)
    } else {
        None
    }
}

impl Label {
    /// The canonical name of this label.
    pub fn as_str(self) -> (s: &'static str)
        ensures
            s@ == label_name(self),
    {
        match self {
            Label::Optional => "optional",
            Label::Required => "required",
            Label::Repeated => "repeated",
        }
    }

    /// All labels, in canonical order.
    pub fn variants() -> (v: Vec<Label>)
        ensures
            v@ == seq![Label::Optional, Label::Required, Label::Repeated],
    {
        let mut v: Vec<Label> = Vec::new();
        v.push(Label::Optional);
        v.push(Label::Required);
        v.push(Label::Repeated);
        proof {
            assert(v@ =~= seq![Label::Optional, Label::Required, Label::Repeated]);
        }
        v
    }

    /// Parses an annotation entry into a field label.
    ///
    /// Only a bare marker with a canonical name matches; any list or
    /// name/value shape yields `None`, even with a matching name.
    pub fn from_attr(attr: &AnnotationEntry) -> (r: Option<Label>)
        ensures
            r == label_from_spec(*attr),
    {
        if crate::attrs::word_attr("optional", attr) {
            Some(Label::Optional)
        } else if crate::attrs::word_attr("required", attr) {
            Some(Label::Required)
        } else if crate::attrs::word_attr("repeated", attr) {
            Some(Label::Repeated)
        } else {
            None
        }
    }
}

impl Describe for Label {
    open spec fn describe_spec(&self) -> Seq<char> {
        label_name(*self)
    }

    fn describe(&self) -> (r: String) {
        self.as_str().to_owned()
    }
}

} // verus!
