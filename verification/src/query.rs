//! The paths and the queries of requests, as text.
use vstd::prelude::*;

use crate::decimal::decimal;

verus! {

/// An upper case hexadecimal digit.
pub open spec fn hex_digit(n: int) -> char {
    if n < 10 {
        (48 + n) as char
    } else {
        (55 + n) as char
    }
}

/// Whether a byte stands for itself in a form-encoded value: letters, digits,
/// `*`, `-`, `.` and `_` do.
pub open spec fn form_unreserved(b: u8) -> bool {
    b == 0x2a || b == 0x2d || b == 0x2e || b == 0x5f || (0x30 <= b <= 0x39) || (0x41 <= b <= 0x5a)
        || (0x61 <= b <= 0x7a)
}

/// A percent-encoded byte.
pub open spec fn percent_byte(b: u8) -> Seq<char> {
    seq!['%', hex_digit(b as int / 16), hex_digit(b as int % 16)]
}

/// One byte of a form-encoded value.
pub open spec fn form_byte(b: u8) -> Seq<char> {
    if form_unreserved(b) {
        seq![b as char]
    } else if b == 0x20 {
        seq!['+']
    } else {
        percent_byte(b)
    }
}

/// A form-encoded value.
pub open spec fn form_text(bytes: Seq<u8>) -> Seq<char>
    decreases bytes.len(),
{
    if bytes.len() == 0 {
        Seq::empty()
    } else {
        form_text(bytes.drop_last()) + form_byte(bytes.last())
    }
}

/// A query with one more parameter, if there is a value for it.
pub open spec fn with_param(query: Seq<char>, name: Seq<char>, value: Option<Seq<char>>) -> Seq<
    char,
> {
    match value {
        Some(value) => (if query.len() == 0 {
            query
        } else {
            query.push('&')
        }) + name.push('=') + value,
        None => query,
    }
}

/// The query of a sync request.
pub open spec fn sync_query(
    since: Option<Seq<char>>,
    full_state: Option<bool>,
    timeout: Option<u64>,
) -> Seq<char> {
    let since = match since {
        Some(token) => Some(form_text(vstd::utf8::encode_utf8(token))),
        None => None,
    };
    let full_state = match full_state {
        Some(true) => Some("true"@),
        Some(false) => Some("false"@),
        None => None,
    };
    let timeout = match timeout {
        Some(n) => Some(decimal(n as nat)),
        None => None,
    };
    let query = with_param(Seq::empty(), "since"@, since);
    let query = with_param(query, "full_state"@, full_state);
    with_param(query, "timeout"@, timeout)
}

/// The path and the query of a sync request.
pub open spec fn sync_target(
    since: Option<Seq<char>>,
    full_state: Option<bool>,
    timeout: Option<u64>,
) -> Seq<char> {
    "/_matrix/client/r0/sync?"@ + sync_query(since, full_state, timeout)
}

/// Whether the URI of a sync request is short enough to be one: a URI has less
/// than 65535 characters, and a placeholder for the host takes 33 of them.
pub open spec fn sync_uri_fits(
    since: Option<Seq<char>>,
    full_state: Option<bool>,
    timeout: Option<u64>,
) -> bool {
    33 + sync_target(since, full_state, timeout).len() < 65535
}

/// Whether a byte is percent-encoded in a segment of a path: control bytes, the
/// space, bytes beyond ASCII, and `"`, `#`, `%`, `/`, `<`, `>`, `?`, `\`, a
/// backquote, `{` and `}` are.
pub open spec fn segment_escaped(b: u8) -> bool {
    b <= 0x20 || b >= 0x7f || b == 0x22 || b == 0x23 || b == 0x25 || b == 0x2f || b == 0x3c || b
        == 0x3e || b == 0x3f || b == 0x5c || b == 0x60 || b == 0x7b || b == 0x7d
}

/// One byte of a segment of a path. Tabs and line ends are left out.
pub open spec fn segment_byte(b: u8) -> Seq<char> {
    if b == 0x09 || b == 0x0a || b == 0x0d {
        Seq::empty()
    } else if segment_escaped(b) {
        percent_byte(b)
    } else {
        seq![b as char]
    }
}

/// A segment of a path.
pub open spec fn segment_text(bytes: Seq<u8>) -> Seq<char>
    decreases bytes.len(),
{
    if bytes.len() == 0 {
        Seq::empty()
    } else {
        segment_text(bytes.drop_last()) + segment_byte(bytes.last())
    }
}

/// Whether a character is an ASCII letter or digit.
pub open spec fn alphanumeric(c: char) -> bool {
    ('0' <= c <= '9') || ('A' <= c <= 'Z') || ('a' <= c <= 'z')
}

/// Whether a text is a segment of a path as it stands: up to 255 letters, digits,
/// dots and underscores, the first of them a letter or a digit.
pub open spec fn plain_segment(s: Seq<char>) -> bool {
    &&& 1 <= s.len() <= 255
    &&& alphanumeric(s[0])
    &&& forall|i: int|
        0 <= i < s.len() ==> alphanumeric(#[trigger] s[i]) || s[i] == '.' || s[i] == '_'
}

/// The path of a request that sends an event to a room.
pub open spec fn message_target(room_id: Seq<char>, event_type: Seq<char>, txn_id: Seq<char>) -> Seq<
    char,
> {
    "/_matrix/client/r0/rooms/"@ + segment_text(vstd::utf8::encode_utf8(room_id)) + "/send/"@
        + event_type + "/"@ + txn_id
}

/// The length of a value once it is form-encoded.
pub(crate) fn form_length(value: &str) -> (r: u128)
    ensures
        r == form_text(vstd::utf8::encode_utf8(value@)).len(),
        r <= 3 * usize::MAX,
{
    let bytes = value.as_bytes();
    let mut total: u128 = 0;
    let mut i: usize = 0;
    while i < bytes.len()
        invariant
            i <= bytes.len(),
            total == form_text(bytes@.take(i as int)).len(),
            total <= 3 * i,
        decreases bytes.len() - i,
    {
        let b: u8 = bytes[i];
        assert(bytes@.take(i + 1).drop_last() == bytes@.take(i as int));
        let unreserved: bool = b == 0x2a || b == 0x2d || b == 0x2e || b == 0x5f || (0x30 <= b && b
            <= 0x39) || (0x41 <= b && b <= 0x5a) || (0x61 <= b && b <= 0x7a);
        total = total + if unreserved || b == 0x20 {
            1
        } else {
            3
        };
        i += 1;
    }
    assert(bytes@.take(i as int) == bytes@);
    total
}

/// The length of a query with one more parameter.
pub(crate) fn length_with_param(query: u128, name: u128, value: Option<u128>) -> (r: u128)
    requires
        query <= 10 * usize::MAX,
        name <= 10,
        value matches Some(value) ==> value <= 3 * usize::MAX,
    ensures
        r <= query + 12 + 3 * usize::MAX,
        forall|q: Seq<char>, n: Seq<char>, v: Option<Seq<char>>|
            q.len() == query && n.len() == name && (v is Some <==> value is Some) && (v is Some
                ==> v->0.len() == value->0) ==> #[trigger] with_param(q, n, v).len() == r,
{
    match value {
        Some(value) => if query == 0 {
            name + 1 + value
        } else {
            query + 1 + name + 1 + value
        },
        None => query,
    }
}

} // verus!
