//! Shape-validating attribute parsers and the attribute classifier:
//! bare-marker test, tri-state boolean parser, tag and tag-list
//! parsers, the two set-once guards, and the grouping of raw
//! attachments into annotation groups.

use vstd::prelude::*;
use vstd::string::StringExecFns;
use crate::entry::{AnnotationEntry, Attribute, Literal, MetaItem};
use crate::entry::{entry_name, is_word, name_matches};
use crate::error::{Describe, Error};
use crate::error::{dup_msg, invalid_attr_msg, invalid_bool_msg, invalid_int_msg,
    invalid_literal_msg, invalid_tag_msg};
use crate::text::{bool_of_str, parse_tokens, split_commas, u32_of_dec};
use crate::text::{chars_to_string, parse_bool_str, parse_u32_list, parse_u32_str};

verus! {

/// What `bool_attr` returns: no match when the name differs from the
/// key; marker form is true; a list must hold exactly one boolean
/// literal; a string value must parse as a boolean.
pub open spec fn bool_attr_spec(key: Seq<char>, e: AnnotationEntry) -> Result<
    Option<bool>,
    Seq<char>,
> {
    if entry_name(e) != key {
        Ok(None)
    } else {
        match e {
            AnnotationEntry::Marker(_) => Ok(Some(true)),
            AnnotationEntry::List(_, items) => if items@.len() == 1 {
                match items@[0] {
                    MetaItem::Lit(Literal::Bool(b)) => Ok(Some(b)),
                    _ => Err(invalid_attr_msg(key)),
                }
            } else {
                Err(invalid_attr_msg(key))
            },
            AnnotationEntry::NameValue(_, Literal::Bool(b)) => Ok(Some(b)),
            AnnotationEntry::NameValue(_, Literal::Str(s)) => match bool_of_str(s@) {
                Some(b) => Ok(Some(b)),
                None => Err(invalid_bool_msg(s@)),
            },
            AnnotationEntry::NameValue(_, Literal::Int(_)) => Err(invalid_attr_msg(key)),
        }
    }
}

/// What `tag_attr` returns: no match when the name is not "tag"; a
/// list must hold exactly one integer literal in range; a string
/// value must parse as an unsigned decimal.
pub open spec fn tag_attr_spec(e: AnnotationEntry) -> Result<Option<u32>, Seq<char>> {
    if entry_name(e) != "tag"@ {
        Ok(None)
    } else {
        match e {
            AnnotationEntry::List(_, items) => if items@.len() == 1 {
                match items@[0] {
                    MetaItem::Lit(Literal::Int(n)) => if n <= u32::MAX {
                        Ok(Some(n as u32))
                    } else {
                        Err(invalid_tag_msg())
                    },
                    _ => Err(invalid_tag_msg()),
                }
            } else {
                Err(invalid_tag_msg())
            },
            AnnotationEntry::NameValue(_, Literal::Str(s)) => match u32_of_dec(s@) {
                Some(v) => Ok(Some(v)),
                None => Err(invalid_int_msg(s@)),
            },
            AnnotationEntry::NameValue(_, Literal::Int(n)) => if n <= u32::MAX {
                Ok(Some(n as u32))
            } else {
                Err(invalid_tag_msg())
            },
            _ => Err(invalid_tag_msg()),
        }
    }
}

/// Every item must be an integer literal in range; collected in order.
pub open spec fn int_items(items: Seq<MetaItem>) -> Result<Seq<u32>, Seq<char>>
    decreases items.len(),
{
    if items.len() == 0 {
        Ok(Seq::empty())
    } else {
        match items[0] {
            MetaItem::Lit(Literal::Int(n)) => if n <= u32::MAX {
                match int_items(items.drop_first()) {
                    Ok(rest) => Ok(seq![n as u32] + rest),
                    Err(m) => Err(m),
                }
            } else {
                Err(invalid_tag_msg())
            },
            _ => Err(invalid_tag_msg()),
        }
    }
}

/// What `tags_attr` returns: no match when the name is not "tags"; a
/// list collects its integer literals in order, duplicates kept; a
/// string value is split on commas, each token trimmed and parsed.
pub open spec fn tags_attr_spec(e: AnnotationEntry) -> Result<Option<Seq<u32>>, Seq<char>> {
    if entry_name(e) != "tags"@ {
        Ok(None)
    } else {
        match e {
            AnnotationEntry::List(_, items) => match int_items(items@) {
                Ok(vs) => Ok(Some(vs)),
                Err(m) => Err(m),
            },
            AnnotationEntry::NameValue(_, Literal::Str(s)) => match parse_tokens(
                split_commas(s@),
            ) {
                Ok(vs) => Ok(Some(vs)),
                Err(tok) => Err(invalid_int_msg(tok)),
            },
            _ => Err(invalid_tag_msg()),
        }
    }
}

/// Set-once semantics for an optional slot: a second value fails with
/// an error embedding both values.
pub open spec fn set_once_spec<T: Describe>(slot: Option<T>, value: T, msg: Seq<char>) -> Result<
    Option<T>,
    Seq<char>,
> {
    match slot {
        Some(existing) => Err(dup_msg(msg, existing.describe_spec(), value.describe_spec())),
        None => Ok(Some(value)),
    }
}

/// Set-once semantics for a flag: the flag is true afterwards either
/// way, and a second attempt fails with the given message.
pub open spec fn set_flag_spec(flag: bool, msg: Seq<char>) -> Result<bool, Seq<char>> {
    if flag {
        Err(msg)
    } else {
        Ok(true)
    }
}

/// A list of raw items as annotation entries; a bare literal directly
/// inside the list is a hard error.
pub open spec fn entries_of(items: Seq<MetaItem>) -> Result<Seq<AnnotationEntry>, Seq<char>>
    decreases items.len(),
{
    if items.len() == 0 {
        Ok(Seq::empty())
    } else {
        match items[0] {
            MetaItem::Entry(e) => match entries_of(items.drop_first()) {
                Ok(rest) => Ok(seq![e] + rest),
                Err(m) => Err(m),
            },
            MetaItem::Lit(_) => Err(invalid_literal_msg()),
        }
    }
}

/// All schema attachments flattened into one entry list; foreign
/// attachments skipped, the first malformed attachment or bare
/// literal is the error.
pub open spec fn flat_entries(attrs: Seq<Attribute>) -> Result<Seq<AnnotationEntry>, Seq<char>>
    decreases attrs.len(),
{
    if attrs.len() == 0 {
        Ok(Seq::empty())
    } else {
        match attrs[0] {
            Attribute::Foreign => flat_entries(attrs.drop_first()),
            Attribute::Malformed(m) => Err(m@),
            Attribute::Schema(items) => match entries_of(items@) {
                Ok(es) => match flat_entries(attrs.drop_first()) {
                    Ok(rest) => Ok(es + rest),
                    Err(m) => Err(m),
                },
                Err(m) => Err(m),
            },
        }
    }
}

/// One annotation group per schema attachment, in order; foreign
/// attachments skipped, per-group failures kept as errors in place.
pub open spec fn nested_groups(attrs: Seq<Attribute>) -> Seq<
    Result<Seq<AnnotationEntry>, Seq<char>>,
>
    decreases attrs.len(),
{
    if attrs.len() == 0 {
        Seq::empty()
    } else {
        match attrs[0] {
            Attribute::Foreign => nested_groups(attrs.drop_first()),
            Attribute::Malformed(m) => seq![
                Err::<Seq<AnnotationEntry>, Seq<char>>(m@),
            ] + nested_groups(attrs.drop_first()),
            Attribute::Schema(items) => seq![entries_of(items@)] + nested_groups(
                attrs.drop_first(),
            ),
        }
    }
}

/// The specification-level value of one produced group.
pub open spec fn group_view(g: Result<Vec<AnnotationEntry>, Error>) -> Result<
    Seq<AnnotationEntry>,
    Seq<char>,
> {
    match g {
        Ok(v) => Ok(v@),
        Err(e) => Err(e.msg@),
    }
}

/// The specification-level value of a produced group list.
pub open spec fn groups_view(gs: Seq<Result<Vec<AnnotationEntry>, Error>>) -> Seq<
    Result<Seq<AnnotationEntry>, Seq<char>>,
> {
    gs.map_values(|g| group_view(g))
}

/// Checks if an attribute entry is a bare marker with the given name.
pub fn word_attr(key: &str, attr: &AnnotationEntry) -> (r: bool)
    ensures
        r == is_word(key@, *attr),
{
    match attr {
        AnnotationEntry::Marker(n) => crate::str_eq(n.as_str(), key),
        _ => false,
    }
}

/// An error whose message is `invalid <key> attribute`.
fn invalid_attr_err(key: &str) -> (e: Error)
    ensures
        e.msg@ == invalid_attr_msg(key@),
{
    let mut m = "invalid ".to_owned();
    m.append(key);
    m.append(" attribute");
    Error { msg: m }
}

/// Unpacks an attribute entry into a (key, boolean) pair, returning
/// the boolean value; `None` when the key does not match the name.
pub fn bool_attr(key: &str, attr: &AnnotationEntry) -> (r: Result<Option<bool>, Error>)
    ensures
        bool_attr_spec(key@, *attr) matches Ok(v) ==> r matches Ok(rv) && rv == v,
        bool_attr_spec(key@, *attr) matches Err(m) ==> r matches Err(e) && e.msg@ == m,
{
    if !name_matches(attr, key) {
        return Ok(None);
    }
    match attr {
        AnnotationEntry::Marker(_) => Ok(Some(true)),
        AnnotationEntry::List(_, items) => {
            if items.len() == 1 {
                match &items[0] {
                    MetaItem::Lit(Literal::Bool(b)) => {
                        return Ok(Some(*b));
                    },
                    _ => {},
                }
            }
            Err(invalid_attr_err(key))
        },
        AnnotationEntry::NameValue(_, Literal::Bool(b)) => Ok(Some(*b)),
        AnnotationEntry::NameValue(_, Literal::Str(s)) => match parse_bool_str(s.as_str()) {
            Some(b) => Ok(Some(b)),
            None => Err(Error::with_value("invalid boolean: ", s.as_str())),
        },
        AnnotationEntry::NameValue(_, Literal::Int(_)) => Err(invalid_attr_err(key)),
    }
}

/// Unpacks a tag attribute entry into its tag number; `None` when the
/// entry's name is not "tag".
pub fn tag_attr(attr: &AnnotationEntry) -> (r: Result<Option<u32>, Error>)
    ensures
        tag_attr_spec(*attr) matches Ok(v) ==> r matches Ok(rv) && rv == v,
        tag_attr_spec(*attr) matches Err(m) ==> r matches Err(e) && e.msg@ == m,
{
    if !name_matches(attr, "tag") {
        return Ok(None);
    }
    match attr {
        AnnotationEntry::List(_, items) => {
            if items.len() == 1 {
                match &items[0] {
                    MetaItem::Lit(Literal::Int(n)) => {
                        if *n <= u32::MAX as u64 {
                            return Ok(Some(*n as u32));
                        }
                    },
                    _ => {},
                }
            }
            Err(Error::new("invalid tag attribute"))
        },
        AnnotationEntry::NameValue(_, Literal::Str(s)) => match parse_u32_str(s.as_str()) {
            Some(v) => Ok(Some(v)),
            None => Err(Error::with_value("invalid integer: ", s.as_str())),
        },
        AnnotationEntry::NameValue(_, Literal::Int(n)) => {
            if *n <= u32::MAX as u64 {
                Ok(Some(*n as u32))
            } else {
                Err(Error::new("invalid tag attribute"))
            }
        },
        _ => Err(Error::new("invalid tag attribute")),
    }
}

/// Unpacks a tags attribute entry into its tag list, in encounter
/// order, duplicates kept; `None` when the name is not "tags".
#[verifier::loop_isolation(false)]
pub fn tags_attr(attr: &AnnotationEntry) -> (r: Result<Option<Vec<u32>>, Error>)
    ensures
        tags_attr_spec(*attr) matches Ok(v) ==> (match v {
            Some(vs) => r matches Ok(rv) && rv matches Some(rvs) && rvs@ == vs,
            None => r matches Ok(rv) && rv is None,
        }),
        tags_attr_spec(*attr) matches Err(m) ==> r matches Err(e) && e.msg@ == m,
{
    if !name_matches(attr, "tags") {
        return Ok(None);
    }
    match attr {
        AnnotationEntry::List(_, items) => {
            let n = items.len();
            let mut out: Vec<u32> = Vec::new();
            let mut i: usize = 0;
            proof {
                assert(items@.skip(0) =~= items@);
                assert(out@ + Seq::<u32>::empty() =~= out@);
            }
            while i < n
                invariant
                    n == items@.len(),
                    i <= n,
                    int_items(items@) == (match int_items(items@.skip(i as int)) {
                        Ok(rest) => Ok::<Seq<u32>, Seq<char>>(out@ + rest),
                        Err(m) => Err::<Seq<u32>, Seq<char>>(m),
                    }),
                decreases n - i,
            {
                proof {
                    crate::lemma_skip_step(items@, i as int);
                }
                match &items[i] {
                    MetaItem::Lit(Literal::Int(v)) => {
                        if *v <= u32::MAX as u64 {
                            let ghost out_old = out@;
                            out.push(*v as u32);
                            i += 1;
                            proof {
                                match int_items(items@.skip(i as int)) {
                                    Ok(rest) => {
                                        assert(out_old + (seq![(v as u32)] + rest) =~= out@
                                            + rest);
                                    },
                                    Err(_) => {},
                                }
                            }
                        } else {
                            return Err(Error::new("invalid tag attribute"));
                        }
                    },
                    _ => {
                        return Err(Error::new("invalid tag attribute"));
                    },
                }
            }
            proof {
                assert(items@.skip(n as int) =~= Seq::<MetaItem>::empty());
                assert(out@ + Seq::<u32>::empty() =~= out@);
            }
            Ok(Some(out))
        },
        AnnotationEntry::NameValue(_, Literal::Str(s)) => match parse_u32_list(s.as_str()) {
            Ok(v) => Ok(Some(v)),
            Err(tok) => {
                let t = chars_to_string(&tok);
                Err(Error::with_value("invalid integer: ", t.as_str()))
            },
        },
        _ => Err(Error::new("invalid tag attribute")),
    }
}

/// Stores a value in an empty slot; a second store fails with an
/// error embedding both the existing and the new value.
pub fn set_option<T: Describe>(option: &mut Option<T>, value: T, message: &str) -> (r: Result<
    (),
    Error,
>)
    ensures
        set_once_spec(*old(option), value, message@) matches Ok(s) ==> r is Ok && *final(option)
            == s,
        set_once_spec(*old(option), value, message@) matches Err(m) ==> r matches Err(e)
            && e.msg@ == m && *final(option) == *old(option),
{
    match option {
        Some(existing) => {
            let mut m = message.to_owned();
            m.append(": ");
            let d = existing.describe();
            m.append(d.as_str());
            m.append(" and ");
            let d2 = value.describe();
            m.append(d2.as_str());
            Err(Error { msg: m })
        },
        None => {
            *option = Some(value);
            Ok(())
        },
    }
}

/// Sets a flag; a second set fails with the given message. The flag
/// is true after either outcome.
pub fn set_bool(b: &mut bool, message: &str) -> (r: Result<(), Error>)
    ensures
        set_flag_spec(*old(b), message@) matches Ok(v) ==> r is Ok && *final(b) == v,
        set_flag_spec(*old(b), message@) matches Err(m) ==> r matches Err(e) && e.msg@ == m,
        *final(b),
{
    if *b {
        Err(Error::new(message))
    } else {
        *b = true;
        Ok(())
    }
}

/// The items of one schema attachment as annotation entries; a bare
/// literal is rejected.
#[verifier::loop_isolation(false)]
fn items_to_entries(items: Vec<MetaItem>) -> (r: Result<Vec<AnnotationEntry>, Error>)
    ensures
        entries_of(items@) matches Ok(es) ==> r matches Ok(v) && v@ == es,
        entries_of(items@) matches Err(m) ==> r matches Err(e) && e.msg@ == m,
{
    let ghost orig = items@;
    let mut items = items;
    let mut out: Vec<AnnotationEntry> = Vec::new();
    proof {
        assert(out@ + Seq::<AnnotationEntry>::empty() =~= out@);
    }
    while items.len() > 0
        invariant
            entries_of(orig) == (match entries_of(items@) {
                Ok(rest) => Ok::<Seq<AnnotationEntry>, Seq<char>>(out@ + rest),
                Err(m) => Err::<Seq<AnnotationEntry>, Seq<char>>(m),
            }),
        decreases items@.len(),
    {
        let ghost items_old = items@;
        let it = items.remove(0);
        proof {
            assert(items@ =~= items_old.drop_first());
            assert(it == items_old[0]);
        }
        match it {
            MetaItem::Entry(e) => {
                let ghost out_old = out@;
                let ghost ee = e;
                out.push(e);
                proof {
                    match entries_of(items@) {
                        Ok(rest) => {
                            assert(out_old + (seq![ee] + rest) =~= out@ + rest);
                        },
                        Err(_) => {},
                    }
                }
            },
            MetaItem::Lit(_) => {
                return Err(Error::new("invalid prost attribute: literal"));
            },
        }
    }
    proof {
        assert(out@ + Seq::<AnnotationEntry>::empty() =~= out@);
    }
    Ok(out)
}

/// The entries of all schema attachments flattened into one list;
/// foreign attachments are skipped, and a malformed attachment or a
/// bare literal is a hard error.
#[verifier::loop_isolation(false)]
pub fn prost_attrs(attrs: Vec<Attribute>) -> (r: Result<Vec<AnnotationEntry>, Error>)
    ensures
        flat_entries(attrs@) matches Ok(es) ==> r matches Ok(v) && v@ == es,
        flat_entries(attrs@) matches Err(m) ==> r matches Err(e) && e.msg@ == m,
{
    let ghost orig = attrs@;
    let mut attrs = attrs;
    let mut out: Vec<AnnotationEntry> = Vec::new();
    proof {
        assert(out@ + Seq::<AnnotationEntry>::empty() =~= out@);
    }
    while attrs.len() > 0
        invariant
            flat_entries(orig) == (match flat_entries(attrs@) {
                Ok(rest) => Ok::<Seq<AnnotationEntry>, Seq<char>>(out@ + rest),
                Err(m) => Err::<Seq<AnnotationEntry>, Seq<char>>(m),
            }),
        decreases attrs@.len(),
    {
        let ghost attrs_old = attrs@;
        let a = attrs.remove(0);
        proof {
            assert(attrs@ =~= attrs_old.drop_first());
            assert(a == attrs_old[0]);
        }
        match a {
            Attribute::Foreign => {},
            Attribute::Malformed(m) => {
                return Err(Error { msg: m });
            },
            Attribute::Schema(items) => {
                let ghost items_v = items@;
                match items_to_entries(items) {
                    Ok(mut es) => {
                        let ghost out_old = out@;
                        let ghost es_v = es@;
                        out.append(&mut es);
                        proof {
                            match flat_entries(attrs@) {
                                Ok(rest) => {
                                    assert(out_old + (es_v + rest) =~= out@ + rest);
                                },
                                Err(_) => {},
                            }
                        }
                    },
                    Err(e) => {
                        return Err(e);
                    },
                }
            },
        }
    }
    proof {
        assert(out@ + Seq::<AnnotationEntry>::empty() =~= out@);
    }
    Ok(out)
}

/// One annotation group per schema attachment, in encounter order;
/// foreign attachments skipped; per-group failures kept in place so
/// unrelated groups still parse.
#[verifier::loop_isolation(false)]
pub fn prost_nested_attrs(attrs: Vec<Attribute>) -> (r: Vec<
    Result<Vec<AnnotationEntry>, Error>,
>)
    ensures
        groups_view(r@) == nested_groups(attrs@),
{
    let ghost orig = attrs@;
    let mut attrs = attrs;
    let mut out: Vec<Result<Vec<AnnotationEntry>, Error>> = Vec::new();
    proof {
        assert(groups_view(out@) =~= Seq::<Result<Seq<AnnotationEntry>, Seq<char>>>::empty());
    }
    while attrs.len() > 0
        invariant
            nested_groups(orig) == groups_view(out@) + nested_groups(attrs@),
        decreases attrs@.len(),
    {
        let ghost attrs_old = attrs@;
        let ghost out_old = out@;
        let a = attrs.remove(0);
        proof {
            assert(attrs@ =~= attrs_old.drop_first());
            assert(a == attrs_old[0]);
        }
        match a {
            Attribute::Foreign => {},
            Attribute::Malformed(m) => {
                out.push(Err(Error { msg: m }));
            },
            Attribute::Schema(items) => {
                let ghost items_v = items@;
                match items_to_entries(items) {
                    Ok(es) => {
                        out.push(Ok(es));
                    },
                    Err(e) => {
                        out.push(Err(e));
                    },
                }
            },
        }
        proof {
            if out@.len() > out_old.len() {
                assert(groups_view(out@) =~= groups_view(out_old).push(group_view(out@.last())));
                assert(groups_view(out_old).push(group_view(out@.last())) + nested_groups(attrs@)
                    =~= groups_view(out_old) + (seq![group_view(out@.last())] + nested_groups(
                    attrs@,
                )));
            }
        }
    }
    proof {
        assert(nested_groups(attrs@) =~= Seq::<Result<Seq<AnnotationEntry>, Seq<char>>>::empty());
        assert(groups_view(out@) + Seq::<Result<Seq<AnnotationEntry>, Seq<char>>>::empty()
            =~= groups_view(out@));
    }
    out
}

} // verus!
