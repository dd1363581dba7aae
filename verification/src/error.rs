//! The single error channel of the compiler: a message string, plus
//! the vocabulary the contracts use to pin each message down exactly.

use vstd::prelude::*;
use vstd::string::StringExecFns;
use crate::text::dec_seq;
use crate::text::u64_to_string;

verus! {

/// A compilation error: a plain message.
///
/// Every failing step of the descriptor compiler returns one of
/// these; the contracts state the exact message for each failure.
#[derive(Debug)]
pub struct Error {
    pub msg: String,
}

impl Error {
    /// An error carrying exactly the given message.
    pub fn new(m: &str) -> (e: Error)
        ensures
            e.msg@ == m@,
    {
        Error { msg: m.to_owned() }
    }

    /// An error carrying the given message followed by a rendered value.
    pub fn with_value(prefix: &str, value: &str) -> (e: Error)
        ensures
            e.msg@ == prefix@ + value@,
    {
        let mut m = prefix.to_owned();
        m.append(value);
        Error { msg: m }
    }

}

/// A value that can render itself for an error message.
///
/// Implemented by the attribute values that the set-once guards may
/// embed in duplicate errors.
pub trait Describe {
    /// The rendering, at the specification level.
    spec fn describe_spec(&self) -> Seq<char>;

    /// Render the value; exactly the specified characters.
    fn describe(&self) -> (r: String)
        ensures
            r@ == self.describe_spec(),
    ;
}

impl Describe for u32 {
    open spec fn describe_spec(&self) -> Seq<char> {
        dec_seq(*self as nat)
    }

    fn describe(&self) -> (r: String) {
        u64_to_string(*self as u64)
    }
}

impl Describe for bool {
    open spec fn describe_spec(&self) -> Seq<char> {
        if *self {
            "true"@
        } else {
            "false"@
        }
    }

    fn describe(&self) -> (r: String) {
        if *self {
            "true".to_owned()
        } else {
            "false".to_owned()
        }
    }
}

impl Describe for String {
    open spec fn describe_spec(&self) -> Seq<char> {
        self@
    }

    fn describe(&self) -> (r: String) {
        self.clone()
    }
}

/// The message of a duplicate-attribute error: the guard's message
/// followed by both conflicting values.
pub open spec fn dup_msg(m: Seq<char>, existing: Seq<char>, new: Seq<char>) -> Seq<char> {
    m + ": "@ + existing + " and "@ + new
}

/// The message rejecting a malformed attribute of the given key.
pub open spec fn invalid_attr_msg(key: Seq<char>) -> Seq<char> {
    "invalid "@ + key + " attribute"@
}

/// The message rejecting a string that is not an unsigned decimal.
pub open spec fn invalid_int_msg(tok: Seq<char>) -> Seq<char> {
    "invalid integer: "@ + tok
}

/// The message rejecting a string that is not a boolean.
pub open spec fn invalid_bool_msg(s: Seq<char>) -> Seq<char> {
    "invalid boolean: "@ + s
}

/// The message rejecting a malformed tag attribute.
pub open spec fn invalid_tag_msg() -> Seq<char> {
    "invalid tag attribute"@
}

/// The message rejecting a bare literal among annotation entries.
pub open spec fn invalid_literal_msg() -> Seq<char> {
    "invalid prost attribute: literal"@
}

} // verus!
