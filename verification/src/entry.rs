//! The annotation data model: literals, entries (marker, list,
//! name/value), nested items, and raw per-member attachments.

use vstd::prelude::*;

verus! {

/// A literal value occurring in an annotation.
#[derive(Clone, Debug, PartialEq)]
pub enum Literal {
    /// A string literal.
    Str(String),
    /// An unsigned integer literal.
    Int(u64),
    /// A boolean literal.
    Bool(bool),
}

/// One annotation entry, classified by shape.
pub enum AnnotationEntry {
    /// A bare marker, e.g. `message`.
    Marker(String),
    /// A named list of nested items, e.g. `tag(7)`.
    List(String, Vec<MetaItem>),
    /// A name with a literal value, e.g. `tag = "7"`.
    NameValue(String, Literal),
}

/// An item nested inside an annotation list: an entry or a literal.
pub enum MetaItem {
    /// A nested annotation entry.
    Entry(AnnotationEntry),
    /// A bare literal.
    Lit(Literal),
}

/// One raw annotation attachment on a declared member.
pub enum Attribute {
    /// An attachment of some other annotation language; skipped.
    Foreign,
    /// An attachment of this schema language: its nested items.
    Schema(Vec<MetaItem>),
    /// An attachment whose own syntax failed to parse; the message.
    Malformed(String),
}

/// The name of an annotation entry.
pub open spec fn entry_name(e: AnnotationEntry) -> Seq<char> {
    match e {
        AnnotationEntry::Marker(n) => n@,
        AnnotationEntry::List(n, _) => n@,
        AnnotationEntry::NameValue(n, _) => n@,
    }
}

/// The entry is exactly a bare marker with the given name.
pub open spec fn is_word(key: Seq<char>, e: AnnotationEntry) -> bool {
    e matches AnnotationEntry::Marker(n) && n@ == key
}

/// Whether the entry's name equals the given key, executably.
pub fn name_matches(e: &AnnotationEntry, key: &str) -> (r: bool)
    ensures
        r == (entry_name(*e) == key@),
{
    match e {
        AnnotationEntry::Marker(n) => crate::str_eq(n.as_str(), key),
        AnnotationEntry::List(n, _) => crate::str_eq(n.as_str(), key),
        AnnotationEntry::NameValue(n, _) => crate::str_eq(n.as_str(), key),
    }
}

} // verus!
