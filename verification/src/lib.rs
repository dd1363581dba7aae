//! A verified field-descriptor compiler for a Protocol-Buffers-style
//! schema language.
//!
//! The crate consumes per-member annotation entries (markers, lists and
//! name/value pairs), classifies them into one of five concrete field
//! kinds (scalar, message, map, oneof, group) or an ignore marker,
//! validates attribute shapes, allocates wire tags from an inferred
//! cursor, and exposes the uniform codec-dispatch contract of the
//! resulting field descriptors.

use vstd::prelude::*;

pub mod attrs;
pub mod entry;
pub mod error;
pub mod field;
pub mod label;
pub mod laws;
pub mod text;

verus! {

/// Equality of two string slices, by their characters.
pub fn str_eq(a: &str, b: &str) -> (r: bool)
    ensures
        r == (a@ == b@),
{
    let alen = a.unicode_len();
    let blen = b.unicode_len();
    if alen != blen {
        return false;
    }
    let mut i: usize = 0;
    while i < alen
        invariant
            alen == a@.len(),
            blen == b@.len(),
            alen == blen,
            i <= alen,
            forall|j: int| 0 <= j < i ==> a@[j] == b@[j],
        decreases alen - i,
    {
        if a.get_char(i) != b.get_char(i) {
            return false;
        }
        i += 1;
    }
    proof {
        assert(a@ =~= b@);
    }
    true
}

/// Splitting one element off the front of a suffix.
pub proof fn lemma_skip_step<T>(s: Seq<T>, i: int)
    requires
        0 <= i < s.len(),
    ensures
        s.skip(i)[0] == s[i],
        s.skip(i).drop_first() =~= s.skip(i + 1),
        s.skip(i).len() == s.len() - i,
{
}

} // verus!
