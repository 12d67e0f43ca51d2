use vstd::prelude::*;
use axum::http::{HeaderMap, HeaderValue};

use crate::error::AuthentikError;
use crate::text::push_char;
use crate::groups::{parse_groups, split_groups};
use crate::layer::{AuthentikConfig, HeaderPrefix};
use crate::user::AuthentikUser;

verus! {

#[verifier::external_type_specification]
#[verifier::external_body]
#[verifier::reject_recursive_types(T)]
pub struct ExHeaderMap<T>(HeaderMap<T>);

/// Declared because it is the element type of `HeaderMap` (its default type
/// parameter); no value of it is handled here.
#[verifier::external_type_specification]
#[verifier::external_body]
pub struct ExHeaderValue(HeaderValue);

/// The header prefix read when no other prefix has been configured.
pub const DEFAULT_HEADER_PREFIX: &'static str = "x-authentik";

/// What a header map holds: for each (normalized, lower-case) header name,
/// the bytes of its values in the order in which they were added.
pub uninterp spec fn header_map_values(headers: HeaderMap) -> Map<Seq<u8>, Seq<Seq<u8>>>;

/// A character that may stand in an HTTP header name (an RFC 7230 `tchar`).
pub open spec fn is_header_name_char(c: char) -> bool {
    let n = c as u32;
    ||| 97 <= n <= 122
    ||| 65 <= n <= 90
    ||| 48 <= n <= 57
    ||| n == 33 || n == 35 || n == 36 || n == 37 || n == 38 || n == 39
    ||| n == 42 || n == 43 || n == 45 || n == 46
    ||| n == 94 || n == 95 || n == 96 || n == 124 || n == 126
}

/// The byte that a header-name character is stored as: ASCII letters are
/// lowered, every other character is kept.
pub open spec fn header_name_byte(c: char) -> u8 {
    let n = c as u32;
    if 65 <= n <= 90 { (n + 32) as u8 } else { n as u8 }
}

/// The stored form of a header name given as text, or `None` where the text
/// is not a header name (empty, too long, or holding a character outside
/// `tchar`).
pub open spec fn normalized_header_name(name: Seq<char>) -> Option<Seq<u8>> {
    if 1 <= name.len() <= 65535 && forall|i: int| 0 <= i < name.len() ==> is_header_name_char(#[trigger] name[i]) {
        Some(name.map_values(|c: char| header_name_byte(c)))
    } else {
        None
    }
}

/// The first value stored under the header `name`, if any.
pub open spec fn first_header_value(values: Map<Seq<u8>, Seq<Seq<u8>>>, name: Seq<char>) -> Option<Seq<u8>> {
    match normalized_header_name(name) {
        Some(key) => if values.dom().contains(key) && values[key].len() > 0 {
            Some(values[key][0])
        } else {
            None
        },
        None => None,
    }
}

/// The view of an optional byte vector.
pub open spec fn bytes_view(v: Option<Vec<u8>>) -> Option<Seq<u8>> {
    match v {
        Some(b) => Some(b@),
        None => None,
    }
}

/// Looks a header up by name and returns the bytes of its first value.
///
/// Trusted: calls `http::HeaderMap::get` with a `&str` key and copies the
/// bytes of the value found (`HeaderValue::as_bytes`). The contract claims
/// what the `http` source shows: the key is parsed as a header name (lower-casing
/// ASCII letters; an empty, over-long or non-`tchar` key matches nothing), and
/// the first value stored under that name is returned.
#[verifier::external_body]
fn header_map_get(headers: &HeaderMap, name: &str) -> (value: Option<Vec<u8>>)
    ensures
        bytes_view(value) == first_header_value(header_map_values(*headers), name@),
{
    headers.get(name).map(|v| v.as_bytes().to_vec())
}

/// A byte that `HeaderValue::to_str` accepts: visible ASCII or a tab.
pub open spec fn is_visible_ascii(b: u8) -> bool {
    (32 <= b && b < 127) || b == 9
}

/// The text of a header value: its bytes as characters when every byte is
/// visible ASCII, else `None`.
pub open spec fn header_text(bytes: Seq<u8>) -> Option<Seq<char>> {
    if forall|i: int| 0 <= i < bytes.len() ==> is_visible_ascii(#[trigger] bytes[i]) {
        Some(bytes.map_values(|b: u8| b as char))
    } else {
        None
    }
}

/// The text of the first value of header `name`, if it has one and it is
/// visible ASCII.
pub open spec fn header_string(values: Map<Seq<u8>, Seq<Seq<u8>>>, name: Seq<char>) -> Option<Seq<char>> {
    match first_header_value(values, name) {
        Some(bytes) => header_text(bytes),
        None => None,
    }
}

/// Decodes the bytes of a header value as text, as `HeaderValue::to_str` does.
pub fn value_text(bytes: &Vec<u8>) -> (text: Option<String>)
    ensures
        match text {
            Some(s) => header_text(bytes@) == Some(s@),
            None => header_text(bytes@) is None,
        },
{
    let n = bytes.len();
    let mut s = String::new();
    let mut i: usize = 0;
    while i < n
        invariant
            n == bytes@.len(),
            i <= n,
            s@ == bytes@.take(i as int).map_values(|b: u8| b as char),
            forall|j: int| 0 <= j < i ==> is_visible_ascii(#[trigger] bytes@[j]),
        decreases n - i,
    {
        let b = bytes[i];
        if !((32 <= b && b < 127) || b == 9) {
            return None;
        }
        push_char(&mut s, b as char);
        assert(bytes@.take(i + 1) =~= bytes@.take(i as int).push(b));
        i = i + 1;
    }
    assert(bytes@.take(n as int) =~= bytes@);
    Some(s)
}


/// The text of the header `prefix-field`, if present and visible ASCII.
pub open spec fn user_header(values: Map<Seq<u8>, Seq<Seq<u8>>>, prefix: Seq<char>, field: Seq<char>) -> Option<Seq<char>> {
    header_string(values, prefix.push('-') + field)
}

/// The four headers without which a request is not authenticated
/// (`username`, `email`, `name`, `uid`) are all present and readable.
pub open spec fn has_identity_headers(values: Map<Seq<u8>, Seq<Seq<u8>>>, prefix: Seq<char>) -> bool {
    &&& user_header(values, prefix, "username"@) is Some
    &&& user_header(values, prefix, "email"@) is Some
    &&& user_header(values, prefix, "name"@) is Some
    &&& user_header(values, prefix, "uid"@) is Some
}

/// The text of the `groups` header, or the empty text where it is missing
/// or unreadable.
pub open spec fn groups_header_text(values: Map<Seq<u8>, Seq<Seq<u8>>>, prefix: Seq<char>) -> Seq<char> {
    match user_header(values, prefix, "groups"@) {
        Some(text) => text,
        None => Seq::empty(),
    }
}

/// Reads the header `prefix` followed by `suffix` as text.
/// A missing header, or one whose value is not visible ASCII, is
/// `Unauthenticated`.
pub fn get_header(headers: &HeaderMap, prefix: &str, suffix: &str) -> (text: Result<String, AuthentikError>)
    ensures
        match text {
            Ok(s) => header_string(header_map_values(*headers), prefix@ + suffix@) == Some(s@),
            Err(e) => e is Unauthenticated && header_string(header_map_values(*headers), prefix@ + suffix@) is None,
        },
{
    let mut header_name = prefix.to_owned();
    header_name.append(suffix);
    match header_map_get(headers, header_name.as_str()) {
        Some(bytes) => match value_text(&bytes) {
            Some(s) => Ok(s),
            None => Err(AuthentikError::Unauthenticated),
        },
        None => Err(AuthentikError::Unauthenticated),
    }
}

/// Builds an `AuthentikUser` from request headers named
/// `<header_prefix>-username`, `-email`, `-name`, `-uid` and `-groups`.
///
/// The first four are required: if any is missing (or not visible ASCII)
/// the result is `Unauthenticated`. The `groups` header is optional; it is a
/// `|`-separated list whose empty entries are dropped.
pub fn read_user_from_headers(headers: &HeaderMap, header_prefix: &str) -> (user: Result<AuthentikUser, AuthentikError>)
    ensures
        user is Ok <==> has_identity_headers(header_map_values(*headers), header_prefix@),
        user matches Err(e) ==> e is Unauthenticated,
        user matches Ok(u) ==> {
            let values = header_map_values(*headers);
            &&& user_header(values, header_prefix@, "username"@) == Some(u.username@)
            &&& user_header(values, header_prefix@, "email"@) == Some(u.email@)
            &&& user_header(values, header_prefix@, "name"@) == Some(u.name@)
            &&& user_header(values, header_prefix@, "uid"@) == Some(u.uid@)
            &&& u.group_names() == parse_groups(groups_header_text(values, header_prefix@))
        },
{
    let mut prefix = header_prefix.to_owned();
    push_char(&mut prefix, '-');
    let username = get_header(headers, prefix.as_str(), "username")?;
    let email = get_header(headers, prefix.as_str(), "email")?;
    let name = get_header(headers, prefix.as_str(), "name")?;
    let uid = get_header(headers, prefix.as_str(), "uid")?;
    let groups = match get_header(headers, prefix.as_str(), "groups") {
        Ok(text) => text,
        Err(_) => String::new(),
    };
    let groups = split_groups(groups.as_str());
    Ok(AuthentikUser::new(username, email, name, uid, groups))
}

/// The header prefix read for a request: the one its extensions carry,
/// else `x-authentik`.
pub open spec fn resolved_prefix(configured: Option<&HeaderPrefix>) -> Seq<char> {
    match configured {
        Some(p) => p.0@,
        None => DEFAULT_HEADER_PREFIX@,
    }
}

/// The header prefix to read: the one configured for the request, else
/// `x-authentik`.
pub fn resolve_header_prefix(configured: Option<&HeaderPrefix>) -> (prefix: String)
    ensures
        prefix@ == resolved_prefix(configured),
{
    match configured {
        Some(p) => p.0.clone(),
        None => DEFAULT_HEADER_PREFIX.to_owned(),
    }
}


/// Law: the text of a header value keeps every byte as the character with
/// the same code, at the same place, when every byte is visible ASCII or a
/// tab; a value holding any other byte has no text.
pub proof fn law_header_text_keeps_bytes(bytes: Seq<u8>)
    ensures
        (forall|i: int| 0 <= i < bytes.len() ==> (32 <= #[trigger] bytes[i] < 127 || bytes[i] == 9)) ==> {
            &&& header_text(bytes) is Some
            &&& header_text(bytes)->0.len() == bytes.len()
            &&& forall|i: int| 0 <= i < bytes.len() ==> (#[trigger] header_text(bytes)->0[i]) as u32 == bytes[i] as u32
        },
        (exists|i: int| 0 <= i < bytes.len() && !(32 <= #[trigger] bytes[i] < 127 || bytes[i] == 9)) ==> header_text(bytes) is None,
{
    if forall|i: int| 0 <= i < bytes.len() ==> (32 <= #[trigger] bytes[i] < 127 || bytes[i] == 9) {
        assert forall|i: int| 0 <= i < bytes.len() implies (#[trigger] header_text(bytes)->0[i]) as u32 == bytes[i] as u32 by {
            let b = bytes[i];
            assert(header_text(bytes)->0[i] == b as char);
            assert((b as char) as u32 == b as u32);
        }
    }
}

/// Law: a header name made of header-name characters is stored with each
/// ASCII capital lowered and every other character kept, at the same place;
/// an empty name, one over 65535 characters or one holding any other
/// character names no header.
pub proof fn law_header_name_normalization(name: Seq<char>)
    ensures
        (1 <= name.len() <= 65535 && forall|i: int| 0 <= i < name.len() ==> is_header_name_char(#[trigger] name[i])) ==> {
            &&& normalized_header_name(name) is Some
            &&& normalized_header_name(name)->0.len() == name.len()
            &&& forall|i: int| 0 <= i < name.len() ==> (#[trigger] normalized_header_name(name)->0[i]) as u32 == if 65 <= name[i] as u32 <= 90 { name[i] as u32 + 32 } else { name[i] as u32 as int }
        },
        (name.len() == 0 || name.len() > 65535 || exists|i: int| 0 <= i < name.len() && !is_header_name_char(#[trigger] name[i])) ==> normalized_header_name(name) is None,
        forall|c: char| (
            (97 <= c as u32 <= 122) || (65 <= c as u32 <= 90) || (48 <= c as u32 <= 57)
            || c == '!' || c == '#' || c == '$' || c == '%' || c == '&' || c == '\'' || c == '*' || c == '+'
            || c == '-' || c == '.' || c == '^' || c == '_' || c == '`' || c == '|' || c == '~') ==> #[trigger] is_header_name_char(c),
        forall|c: char| #[trigger] is_header_name_char(c) ==> 33 <= c as u32 <= 126 && c as u32 != 34 && c as u32 != 40 && c as u32 != 41 && c as u32 != 44 && c as u32 != 47 && !(58 <= c as u32 <= 64) && !(91 <= c as u32 <= 93) && c as u32 != 123 && c as u32 != 125,
{
    assert('!' as u32 == 33 && '#' as u32 == 35 && '$' as u32 == 36 && '%' as u32 == 37);
    assert('&' as u32 == 38 && '\'' as u32 == 39 && '*' as u32 == 42 && '+' as u32 == 43);
    assert('-' as u32 == 45 && '.' as u32 == 46 && '^' as u32 == 94 && '_' as u32 == 95);
    assert('`' as u32 == 96 && '|' as u32 == 124 && '~' as u32 == 126);
}

/// Law: the first value of a header is the first value stored under its
/// normalized name, and nothing where the name names no header or no value
/// is stored under it.
pub proof fn law_first_header_value(values: Map<Seq<u8>, Seq<Seq<u8>>>, name: Seq<char>)
    ensures
        (normalized_header_name(name) matches Some(key) && values.dom().contains(key) && values[key].len() > 0)
            ==> first_header_value(values, name) == Some(values[normalized_header_name(name)->0][0]),
        !(normalized_header_name(name) matches Some(key) && values.dom().contains(key) && values[key].len() > 0)
            ==> first_header_value(values, name) is None,
{
}

/// Law: the text of a header is the text of its first value, and nothing
/// where the header has no value.
pub proof fn law_header_string_is_first_value_text(values: Map<Seq<u8>, Seq<Seq<u8>>>, name: Seq<char>)
    ensures
        first_header_value(values, name) matches Some(bytes) ==> header_string(values, name) == header_text(bytes),
        first_header_value(values, name) is None ==> header_string(values, name) is None,
{
}

/// Law: a user field `field` under prefix `prefix` is read from the header
/// whose name is the prefix, a `'-'`, then the field name; and the groups
/// text is that header's text exactly when it has one, else empty.
pub proof fn law_user_header_name(values: Map<Seq<u8>, Seq<Seq<u8>>>, prefix: Seq<char>, field: Seq<char>, name: Seq<char>)
    requires
        name.len() == prefix.len() + 1 + field.len(),
        name.subrange(0, prefix.len() as int) == prefix,
        name[prefix.len() as int] == '-',
        name.subrange(prefix.len() + 1int, name.len() as int) == field,
    ensures
        user_header(values, prefix, field) == header_string(values, name),
        field == "groups"@ ==> groups_header_text(values, prefix) == match header_string(values, name) {
            Some(text) => text,
            None => Seq::empty(),
        },
{
    assert(prefix.push('-') + field =~= name);
}

/// Law: a request that passed a layer is read under the layer's prefix
/// (the marker it inserts carries that prefix), and a request that passed
/// none is read under the default prefix, which is also the prefix of the
/// default configuration.
pub proof fn law_prefix_reaches_extractor(config: AuthentikConfig, marker: HeaderPrefix)
    requires
        marker.0@ == config.header_prefix@,
    ensures
        resolved_prefix(Some(&marker)) == config.header_prefix@,
        resolved_prefix(None) == DEFAULT_HEADER_PREFIX@,
{
}

} // verus!
