//! JSON text.
use vstd::prelude::*;

verus! {

/// A lower case hexadecimal digit.
pub open spec fn lower_hex_digit(n: int) -> char {
    if n < 10 {
        (48 + n) as char
    } else {
        (87 + n) as char
    }
}

/// One character inside a JSON string: quotes, backslashes and control
/// characters are escaped, every other character stands for itself.
pub open spec fn json_char(c: char) -> Seq<char> {
    if c == '"' {
        seq!['\\', '"']
    } else if c == '\\' {
        seq!['\\', '\\']
    } else if c == '\x08' {
        seq!['\\', 'b']
    } else if c == '\t' {
        seq!['\\', 't']
    } else if c == '\n' {
        seq!['\\', 'n']
    } else if c == '\x0c' {
        seq!['\\', 'f']
    } else if c == '\r' {
        seq!['\\', 'r']
    } else if (c as int) < 32 {
        seq!['\\', 'u', '0', '0', lower_hex_digit(c as int / 16), lower_hex_digit(c as int % 16)]
    } else {
        seq![c]
    }
}

/// The inside of a JSON string.
pub open spec fn json_chars(s: Seq<char>) -> Seq<char>
    decreases s.len(),
{
    if s.len() == 0 {
        Seq::empty()
    } else {
        json_chars(s.drop_last()) + json_char(s.last())
    }
}

/// A JSON string.
pub open spec fn json_string(s: Seq<char>) -> Seq<char> {
    seq!['"'] + json_chars(s) + seq!['"']
}

/// The JSON object of a login by password. It names no third party identifier,
/// and a device only if there is one.
pub open spec fn login_json(
    user: Seq<char>,
    password: Seq<char>,
    device_id: Option<Seq<char>>,
) -> Seq<char> {
    "{\"password\":"@ + json_string(password) + ",\"type\":\"m.login.password\",\"user\":"@
        + json_string(user) + (match device_id {
        Some(device_id) => ",\"device_id\":"@ + json_string(device_id),
        None => Seq::empty(),
    }) + "}"@
}

/// The bytes of a login by password.
pub open spec fn login_body(
    user: Seq<char>,
    password: Seq<char>,
    device_id: Option<Seq<char>>,
) -> Seq<u8> {
    vstd::utf8::encode_utf8(login_json(user, password, device_id))
}

} // verus!
