//! The caller's header collection (`http::HeaderMap`), seen through its contents.
//!
//! A header map is modelled as a finite map from a lower-case header name to the
//! values stored under it, in the order in which they were added, each value as
//! the text it was built from.
use vstd::prelude::*;

verus! {

/// The caller's header collection, opaque here: what it holds is `header_entries`.
#[verifier::external_type_specification]
#[verifier::external_body]
#[verifier::reject_recursive_types(T)]
pub struct ExHeaderMap<T>(http::HeaderMap<T>);

/// The value type of `http::HeaderMap`'s default parameter; only carried through.
#[verifier::external_type_specification]
#[verifier::external_body]
pub struct ExHeaderValue(http::HeaderValue);

/// Header names, lower case, each with its values in order.
pub type HeaderEntries = Map<Seq<char>, Seq<Seq<char>>>;

/// What a header map holds: for each lower-case header name present, its values in order.
pub uninterp spec fn header_entries(h: http::HeaderMap) -> Map<Seq<char>, Seq<Seq<char>>>;

/// The number of distinct header names below which adding a value to a map never
/// hits the map's size limit.
pub open spec fn header_capacity() -> nat {
    4096
}

/// A map that holds finitely many names, fewer than `header_capacity()`.
pub open spec fn has_room(m: HeaderEntries) -> bool {
    m.dom().finite() && m.dom().len() < header_capacity()
}

/// A lower-case header name: letters `a`-`z`, digits and `-`, at most 64 of them.
pub open spec fn is_lower_name(s: Seq<char>) -> bool {
    &&& 0 < s.len() <= 64
    &&& forall|i: int|
        0 <= i < s.len() ==> ('a' <= #[trigger] s[i] <= 'z' || '0' <= s[i] <= '9' || s[i] == '-')
}

/// A character that may stand in a header value: anything but a control
/// character, where the horizontal tab is allowed.
pub open spec fn is_value_char(c: char) -> bool {
    (c as u32 >= 32 && c as u32 != 127) || c == '\t'
}

/// A text that can be stored as a header value.
pub open spec fn is_value_text(s: Seq<char>) -> bool {
    forall|i: int| 0 <= i < s.len() ==> is_value_char(#[trigger] s[i])
}

/// Relies on `HeaderMap::insert`, with its arguments built by `HeaderName::from_static`
/// and `HeaderValue::from_str`: the name ends up holding exactly this one value.
/// `from_static` accepts lower-case token names; `from_str` accepts text without control
/// characters but the tab; `insert` cannot outgrow the map below its capacity.
#[verifier::external_body]
pub(crate) fn insert_header(headers: &mut http::HeaderMap, name: &'static str, value: &str)
    requires
        is_lower_name(name@),
        is_value_text(value@),
        has_room(header_entries(*old(headers))),
    ensures
        header_entries(*final(headers)) == header_entries(*old(headers)).insert(
            name@,
            seq![value@],
        ),
{
    let value = http::HeaderValue::from_str(value).unwrap();
    headers.insert(http::HeaderName::from_static(name), value);
}

/// Relies on `HeaderMap::append`, with its arguments built as for `insert_header`: the
/// value is added after those already held under the name.
#[verifier::external_body]
pub(crate) fn append_header(headers: &mut http::HeaderMap, name: &'static str, value: &str)
    requires
        is_lower_name(name@),
        is_value_text(value@),
        has_room(header_entries(*old(headers))),
    ensures
        header_entries(*final(headers)) == header_entries(*old(headers)).insert(
            name@,
            if header_entries(*old(headers)).contains_key(name@) {
                header_entries(*old(headers))[name@].push(value@)
            } else {
                seq![value@]
            },
        ),
{
    let value = http::HeaderValue::from_str(value).unwrap();
    headers.append(http::HeaderName::from_static(name), value);
}

/// Relies on `HeaderMap::remove`: every value held under the name goes.
#[verifier::external_body]
pub(crate) fn remove_header(headers: &mut http::HeaderMap, name: &'static str)
    requires
        is_lower_name(name@),
    ensures
        header_entries(*final(headers)) == header_entries(*old(headers)).remove(name@),
{
    headers.remove(name);
}

/// Relies on `HeaderMap::contains_key`: whether the name holds a value.
#[verifier::external_body]
pub(crate) fn contains_header(headers: &http::HeaderMap, name: &'static str) -> (r: bool)
    requires
        is_lower_name(name@),
    ensures
        r == header_entries(*headers).contains_key(name@),
{
    headers.contains_key(name)
}

} // verus!
