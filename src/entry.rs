//! Desktop entry files as read by `freedesktop_entry_parser`: the parsed entry
//! is carried as the crate's own type, and its plain attribute values are
//! named as a map from (section, key) to value.
use vstd::prelude::*;
use freedesktop_entry_parser::{Entry, ParseError};

verus! {

#[verifier::external_type_specification]
#[verifier::external_body]
pub struct ExEntry(Entry);

#[verifier::external_type_specification]
#[verifier::external_body]
pub struct ExParseError(ParseError);

/// The plain (unparameterised) attribute values held by a parsed entry,
/// keyed by section title and attribute name.
pub uninterp spec fn entry_attrs(e: Entry) -> Map<(Seq<char>, Seq<char>), Seq<char>>;

/// What parsing `bytes` as a desktop entry yields: `None` where the parser
/// rejects them, else the plain attribute values of the entry.
pub uninterp spec fn parsed_attrs(bytes: Seq<u8>) -> Option<Map<(Seq<char>, Seq<char>), Seq<char>>>;

/// Relies on `freedesktop_entry_parser::Entry::parse`: it is a function of the
/// bytes alone, and on success the entry holds the attribute values it read.
#[verifier::external_body]
pub(crate) fn parse_entry_bytes(bytes: &[u8]) -> (r: Result<Entry, ParseError>)
    ensures
        r is Ok <==> parsed_attrs(bytes@) is Some,
        r is Ok ==> entry_attrs(r->Ok_0) == parsed_attrs(bytes@)->Some_0,
{
    Entry::parse(bytes.to_vec())
}

/// Relies on `freedesktop_entry_parser::AttrSelector::attr` (through
/// `Entry::section`): it returns the plain value stored under the section and
/// attribute name, or `None` where there is none.
#[verifier::external_body]
pub(crate) fn entry_attr(e: &Entry, section: &str, key: &str) -> (r: Option<String>)
    ensures
        r is Some <==> entry_attrs(*e).contains_key((section@, key@)),
        r is Some ==> r->Some_0@ == entry_attrs(*e)[(section@, key@)],
{
    e.section(section).attr(key).map(String::from)
}

} // verus!
