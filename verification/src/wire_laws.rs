//! What goes over the wire, and what the texts on it are.
use ruma_events::room::message::MessageEventContent;
use vstd::prelude::*;

use crate::async_client::{message_sent, AsyncClientView};
use crate::config::{AsyncClientConfigView, HttpOptionsView};
use crate::decimal::{decimal, decimal_nonempty, digit};
use crate::error::ClientError;
use crate::json::{json_chars, login_body, login_json, lower_hex_digit};
use crate::outside::{
    header_char, header_text, is_message_error, is_message_json, joined_url, message_encodes,
    parsed_room_id, MAX_SAFE_UINT,
};
use crate::query::{
    form_text, hex_digit, message_target, plain_segment, segment_text, sync_target,
};
use crate::request::{
    call_for, method_named, method_names, prepared, EndpointRequest, EndpointRequestView, HttpCall,
    HttpCallView, Method,
};
use crate::session::{text, SessionView};
use crate::settings::SyncSettingsView;

verus! {

// ------------------------------------------------------------- requests

/// The three methods go by their own names, and no other name is one.
pub proof fn methods_go_by_their_names(name: Seq<char>)
    ensures
        method_named(name) == Some(Method::Get) <==> name == "GET"@,
        method_named(name) == Some(Method::Post) <==> name == "POST"@,
        method_named(name) == Some(Method::Put) <==> name == "PUT"@,
        method_named(name) is None <==> name != "GET"@ && name != "POST"@ && name != "PUT"@,
{
    method_names();
}

/// A request that asks for no access token goes out whether or not there is a
/// session, without one; one that asks for it goes out with the session's, and
/// does not go out if there is no session. It goes to the URL it was given, by the
/// method it was given, and takes its bytes along unless that is a GET.
pub proof fn a_request_goes_out_as_it_was_made(
    request: EndpointRequestView,
    method: Method,
    url: Seq<char>,
    session: Option<SessionView>,
)
    ensures
        call_for(request, method, url, session) is None <==> request.requires_authentication
            && session is None,
        call_for(request, method, url, session) matches Some(call) ==> {
            &&& call.method == method
            &&& call.url == url
            &&& method == Method::Get ==> call.body is None
            &&& method != Method::Get ==> call.body == Some(request.body)
            &&& !request.requires_authentication ==> call.bearer is None
            &&& request.requires_authentication ==> session is Some && call.bearer == Some(
                session->0.access_token,
            )
        },
{
}

/// The client sends a request to its path at the homeserver, by the endpoint's
/// method. It can do so just when there is such a URL and it knows the method.
pub proof fn a_request_goes_to_the_homeserver<C>(
    client: AsyncClientView<C>,
    request: EndpointRequestView,
)
    ensures
        client.sendable(request) <==> (request.path_and_query matches Some(path) && joined_url(
            client.homeserver,
            path,
        ) is Some && (request.method == "GET"@ || request.method == "POST"@ || request.method
            == "PUT"@)),
        client.sendable(request) && client.base.session is None ==> (client.call(request) is None
            <==> request.requires_authentication),
        client.sendable(request) && client.base.session is Some ==> client.call(request) is Some,
        client.sendable(request) ==> (client.call(request) matches Some(call) ==> {
            &&& Some(call.url) == joined_url(client.homeserver, request.path_and_query->0)
            &&& call.method == Method::Get <==> request.method == "GET"@
            &&& call.method == Method::Post <==> request.method == "POST"@
            &&& call.method == Method::Put <==> request.method == "PUT"@
            &&& request.method == "GET"@ ==> call.body is None
            &&& request.method != "GET"@ ==> call.body == Some(request.body)
            &&& !request.requires_authentication ==> call.bearer is None
            &&& request.requires_authentication ==> client.base.session is Some && call.bearer
                == Some(client.base.session->0.access_token)
        }),
{
    method_names();
}

/// A login goes out as a POST to the login endpoint of the homeserver, without an
/// access token, and its bytes are the JSON of the password, the login type, the
/// user and, if there is one, the device. That is what a request to the endpoint
/// that was made so comes to, for every client.
pub proof fn a_login_is_posted<C>(
    client: AsyncClientView<C>,
    user: Seq<char>,
    password: Seq<char>,
    device_id: Option<Seq<char>>,
)
    ensures
        client.login_url() == joined_url(client.homeserver, "/_matrix/client/r0/login"@),
        client.login_call(user, password, device_id).method == Method::Post,
        client.login_call(user, password, device_id).bearer is None,
        joined_url(client.homeserver, "/_matrix/client/r0/login"@) matches Some(url)
            ==> client.login_call(user, password, device_id).url == url,
        client.login_call(user, password, device_id).body == Some(
            vstd::utf8::encode_utf8(
                "{\"password\":\""@ + json_chars(password)
                    + "\",\"type\":\"m.login.password\",\"user\":\""@ + json_chars(user) + (
                match device_id {
                    Some(device_id) => "\",\"device_id\":\""@ + json_chars(device_id),
                    None => Seq::empty(),
                }) + "\"}"@,
            ),
        ),
        client.call(
            (EndpointRequestView {
                method: "POST"@,
                requires_authentication: false,
                path_and_query: Some("/_matrix/client/r0/login"@),
                body: login_body(user, password, device_id),
            }),
        ) == Some(client.login_call(user, password, device_id)),
{
    method_names();
    reveal_strlit("{\"password\":");
    reveal_strlit("{\"password\":\"");
    reveal_strlit(",\"type\":\"m.login.password\",\"user\":");
    reveal_strlit("\",\"type\":\"m.login.password\",\"user\":\"");
    reveal_strlit(",\"device_id\":");
    reveal_strlit("\",\"device_id\":\"");
    reveal_strlit("}");
    reveal_strlit("\"}");
    assert(login_json(user, password, device_id) =~= "{\"password\":\""@ + json_chars(
        password,
    ) + "\",\"type\":\"m.login.password\",\"user\":\""@ + json_chars(user) + (match device_id {
        Some(device_id) => "\",\"device_id\":\""@ + json_chars(device_id),
        None => Seq::empty(),
    }) + "\"}"@);
}

/// A sync goes out as a GET without bytes, with the access token, to the path and
/// the query that the settings stand for. That is what a request to the endpoint
/// that was made so comes to, for every client that is logged in; one that is not
/// sends nothing.
pub proof fn a_sync_is_a_get<C>(client: AsyncClientView<C>, settings: SyncSettingsView)
    ensures
        client.sync_url(settings) == joined_url(client.homeserver, settings.target()),
        client.sync_call(settings) is None <==> client.base.session is None,
        client.base.session matches Some(session) ==> (client.sync_call(settings) matches Some(call)
            && {
            &&& call.method == Method::Get
            &&& call.body is None
            &&& call.bearer == Some(session.access_token)
            &&& joined_url(client.homeserver, settings.target()) matches Some(url) ==> call.url
                == url
        }),
        client.call(
            (EndpointRequestView {
                method: "GET"@,
                requires_authentication: true,
                path_and_query: Some(settings.target()),
                body: Seq::empty(),
            }),
        ) == client.sync_call(settings),
{
    method_names();
}

/// The path and the query of a sync: the token and the timeout are there just when
/// they are set, and the full state just when it and the token are.
pub proof fn settings_stand_in_the_query(settings: SyncSettingsView)
    ensures
        settings.target() == match (settings.token, settings.timeout) {
            (Some(token), timeout) => "/_matrix/client/r0/sync?since="@ + form_text(
                vstd::utf8::encode_utf8(token),
            ) + (match settings.full_state {
                Some(true) => "&full_state=true"@,
                Some(false) => "&full_state=false"@,
                None => Seq::empty(),
            }) + (match timeout {
                Some(n) => "&timeout="@ + decimal(n as nat),
                None => Seq::empty(),
            }),
            (None, Some(n)) => "/_matrix/client/r0/sync?timeout="@ + decimal(n as nat),
            (None, None) => "/_matrix/client/r0/sync?"@,
        },
        settings.uri_fits() <==> "http://invalid-host-please-change"@.len()
            + settings.target().len() <= 65534,
{
    reveal_strlit("/_matrix/client/r0/sync?");
    reveal_strlit("/_matrix/client/r0/sync?since=");
    reveal_strlit("/_matrix/client/r0/sync?timeout=");
    reveal_strlit("http://invalid-host-please-change");
    reveal_strlit("since");
    reveal_strlit("full_state");
    reveal_strlit("timeout");
    reveal_strlit("true");
    reveal_strlit("false");
    reveal_strlit("&full_state=true");
    reveal_strlit("&full_state=false");
    reveal_strlit("&timeout=");
    let target = match (settings.token, settings.timeout) {
        (Some(token), timeout) => "/_matrix/client/r0/sync?since="@ + form_text(
            vstd::utf8::encode_utf8(token),
        ) + (match settings.full_state {
            Some(true) => "&full_state=true"@,
            Some(false) => "&full_state=false"@,
            None => Seq::empty(),
        }) + (match timeout {
            Some(n) => "&timeout="@ + decimal(n as nat),
            None => Seq::empty(),
        }),
        (None, Some(n)) => "/_matrix/client/r0/sync?timeout="@ + decimal(n as nat),
        (None, None) => "/_matrix/client/r0/sync?"@,
    };
    assert(settings.target() =~= target);
}

/// A query that names the full state although there is no token, which no settings
/// lead to.
pub proof fn the_query_of_a_full_state(full_state: bool, timeout: Option<u64>)
    ensures
        sync_target(None, Some(full_state), timeout) == (if full_state {
            "/_matrix/client/r0/sync?full_state=true"@
        } else {
            "/_matrix/client/r0/sync?full_state=false"@
        }) + (match timeout {
            Some(n) => "&timeout="@ + decimal(n as nat),
            None => Seq::empty(),
        }),
{
    reveal_strlit("/_matrix/client/r0/sync?");
    reveal_strlit("/_matrix/client/r0/sync?full_state=true");
    reveal_strlit("/_matrix/client/r0/sync?full_state=false");
    reveal_strlit("full_state");
    reveal_strlit("timeout");
    reveal_strlit("true");
    reveal_strlit("false");
    reveal_strlit("&timeout=");
    assert(sync_target(None, Some(full_state), timeout) =~= (if full_state {
        "/_matrix/client/r0/sync?full_state=true"@
    } else {
        "/_matrix/client/r0/sync?full_state=false"@
    }) + (match timeout {
        Some(n) => "&timeout="@ + decimal(n as nat),
        None => Seq::empty(),
    }));
}

/// A message goes out as a PUT of its JSON, with the access token, to a path that
/// names the room, the type of event and the next transaction id, whatever that
/// is. That is what a request to the endpoint that was made so comes to, for every
/// client that is logged in; one that is not sends nothing.
pub proof fn a_message_is_put<C>(client: AsyncClientView<C>, room_id: Seq<char>, json: Seq<u8>)
    ensures
        parsed_room_id(room_id) matches Some(id) ==> client.message_path(room_id)
            == "/_matrix/client/r0/rooms/"@ + segment_text(vstd::utf8::encode_utf8(id))
            + "/send/m.room.message/"@ + decimal(client.transaction_id as nat),
        client.message_url(room_id) == joined_url(client.homeserver, client.message_path(room_id)),
        client.message_call(room_id, json) is None <==> client.base.session is None,
        client.base.session matches Some(session) ==> (client.message_call(
            room_id,
            json,
        ) matches Some(call) && {
            &&& call.method == Method::Put
            &&& call.body == Some(json)
            &&& call.bearer == Some(session.access_token)
            &&& client.message_url(room_id) matches Some(url) ==> call.url == url
        }),
        client.call(
            (EndpointRequestView {
                method: "PUT"@,
                requires_authentication: true,
                path_and_query: Some(client.message_path(room_id)),
                body: json,
            }),
        ) == client.message_call(room_id, json),
{
    method_names();
    reveal_strlit("m.room.message");
    reveal_strlit("/send/");
    reveal_strlit("/");
    reveal_strlit("/send/m.room.message/");
    if let Some(id) = parsed_room_id(room_id) {
        assert(client.message_path(room_id) =~= "/_matrix/client/r0/rooms/"@ + segment_text(
            vstd::utf8::encode_utf8(id),
        ) + "/send/m.room.message/"@ + decimal(client.transaction_id as nat));
    }
}

/// The path of an event to a room, part by part.
pub proof fn a_message_path_names_its_parts(
    room_id: Seq<char>,
    event_type: Seq<char>,
    txn_id: Seq<char>,
)
    ensures
        message_target(room_id, event_type, txn_id) == "/_matrix/client/r0/rooms/"@ + segment_text(
            vstd::utf8::encode_utf8(room_id),
        ) + "/send/"@ + event_type + "/"@ + txn_id,
{
}

/// What the outcome of preparing a request means: where there is a call, the
/// outcome is that call, in every part; where there is none, it is that
/// authentication is required.
pub proof fn an_outcome_is_the_call(r: Result<HttpCall, ClientError>, call: HttpCallView)
    ensures
        prepared(r, Some(call)) <==> (r matches Ok(made) && {
            &&& made.method == call.method
            &&& made.url@ == call.url
            &&& match made.body {
                Some(body) => call.body == Some(body@),
                None => call.body is None,
            }
            &&& match made.bearer {
                Some(bearer) => call.bearer == Some(bearer@),
                None => call.bearer is None,
            }
        }),
        prepared(r, None) <==> (r matches Err(e) && e is AuthenticationRequired),
{
    if let Ok(made) = r {
        assert(made@.bearer == text(made.bearer));
    }
}

/// What the outcome of sending a message means: a message without a JSON form is
/// refused with the error of that; one with such a form is refused for want of
/// authentication if there is no session, and else goes out as a PUT of a JSON form
/// of it, under the transaction id that the client had.
pub proof fn a_message_goes_out_or_is_refused<C>(
    r: Result<HttpCall, ClientError>,
    client: AsyncClientView<C>,
    room_id: Seq<char>,
    data: MessageEventContent,
)
    requires
        message_sent(r, client, room_id, data),
    ensures
        !message_encodes(data) ==> (r matches Err(e) && e matches ClientError::RumaApi(cause)
            && is_message_error(data, cause)),
        message_encodes(data) && client.base.session is None ==> (r matches Err(e)
            && e is AuthenticationRequired),
        message_encodes(data) && client.base.session is Some ==> (r matches Ok(call) && {
            &&& call.method == Method::Put
            &&& call.body is Some
            &&& is_message_json(data, call.body->0@)
            &&& call.bearer is Some
            &&& call.bearer->0@ == client.base.session->0.access_token
            &&& ({
                let url = joined_url(
                    client.homeserver,
                    "/_matrix/client/r0/rooms/"@ + segment_text(
                        vstd::utf8::encode_utf8(parsed_room_id(room_id)->0),
                    ) + "/send/m.room.message/"@ + decimal(client.transaction_id as nat),
                );
                parsed_room_id(room_id) is Some && url is Some ==> call.url@ == url->0
            })
        }),
{
    if let Ok(call) = r {
        if let Some(body) = call@.body {
            a_message_is_put(client, room_id, body);
        }
    }
}

/// A request of an endpoint, and a call, are worth what stands in their fields.
pub proof fn requests_and_calls_are_their_fields(request: EndpointRequest, call: HttpCall)
    ensures
        request@.method == request.method@,
        request@.requires_authentication == request.requires_authentication,
        request@.path_and_query == (match request.path_and_query {
            Some(path) => Some(path@),
            None => None,
        }),
        request@.body == request.body@,
        call@.method == call.method,
        call@.url == call.url@,
        call@.body == (match call.body {
            Some(body) => Some(body@),
            None => None,
        }),
        call@.bearer == (match call.bearer {
            Some(bearer) => Some(bearer@),
            None => None,
        }),
{
}

// --------------------------------------------------------- configuration

/// A configuration means what it says: the HTTP client accepts invalid
/// certificates just when SSL verification is disabled, goes through the proxy that
/// is set, or through none that it was given, and names the user agent that is set,
/// or its own. In a new configuration nothing is set.
pub proof fn a_configuration_means_what_it_says(config: AsyncClientConfigView)
    ensures
        config.http_options().setup().accept_invalid_certs == config.disable_ssl_verification,
        config.proxy is None ==> config.http_options().setup().proxies.len() == 0,
        config.proxy matches Some(proxy) ==> config.http_options().setup().proxies == seq![proxy],
        config.http_options().setup().user_agent == Some(
            match config.user_agent {
                Some(user_agent) => user_agent,
                None => "nio-rust 0.1.0"@,
            },
        ),
        config.http_options().accept_invalid_certs == config.disable_ssl_verification,
        config.http_options().proxy == config.proxy,
        AsyncClientConfigView::unset().proxy is None,
        AsyncClientConfigView::unset().user_agent is None,
        !AsyncClientConfigView::unset().disable_ssl_verification,
{
    reveal_strlit("nio-rust ");
    reveal_strlit("0.1.0");
    reveal_strlit("nio-rust 0.1.0");
    assert("nio-rust "@ + "0.1.0"@ =~= "nio-rust 0.1.0"@);
}

/// Options mean what they say, whatever configuration they come from.
pub proof fn options_mean_what_they_say(options: HttpOptionsView)
    ensures
        options.setup().accept_invalid_certs == options.accept_invalid_certs,
        options.proxy is None ==> options.setup().proxies.len() == 0,
        options.proxy matches Some(proxy) ==> options.setup().proxies == seq![proxy],
        options.setup().user_agent == Some(options.user_agent),
{
}

/// A text can be the value of a header just when each of its characters is a tab,
/// or is at least the space and is not the delete character.
pub proof fn header_values_have_no_control_characters(value: Seq<char>)
    ensures
        header_text(value) <==> forall|i: int|
            0 <= i < value.len() ==> (#[trigger] value[i] as int == 9 || (value[i] as int >= 32
                && value[i] as int != 127)),
{
    if header_text(value) {
        assert forall|i: int| 0 <= i < value.len() implies (#[trigger] value[i] as int == 9 || (
        value[i] as int >= 32 && value[i] as int != 127)) by {
            assert(header_char(value[i]));
        }
    }
    if forall|i: int|
        0 <= i < value.len() ==> (#[trigger] value[i] as int == 9 || (value[i] as int >= 32
            && value[i] as int != 127)) {
        assert forall|i: int| 0 <= i < value.len() implies header_char(
            #[trigger] value[i],
        ) by {}
    }
}

/// Settings start with nothing set, and the largest timeout is 2^53 - 1.
pub proof fn settings_start_unset()
    ensures
        SyncSettingsView::unset().timeout is None,
        SyncSettingsView::unset().token is None,
        SyncSettingsView::unset().full_state is None,
        MAX_SAFE_UINT == 0x20_0000_0000_0000 - 1,
{
}

// ----------------------------------------------------------------- texts

/// A decimal text is its number's: a digit stands for itself, and one more digit
/// makes the number ten times as large and adds the digit.
pub proof fn decimals_count_in_tens(n: nat, d: nat)
    requires
        d < 10,
    ensures
        decimal(d) == seq!["0123456789"@[d as int]],
        n > 0 ==> decimal(10 * n + d) == decimal(n).push("0123456789"@[d as int]),
{
    reveal_strlit("0123456789");
    assert((10 * n + d) / 10 == n && (10 * n + d) % 10 == d) by (nonlinear_arith)
        requires
            d < 10,
    ;
    assert(digit(d) == "0123456789"@[d as int]);
    decimal_nonempty(n);
}

proof fn hex_digits_are_upper_case(n: int)
    requires
        0 <= n < 16,
    ensures
        hex_digit(n) == "0123456789ABCDEF"@[n],
{
    reveal_strlit("0123456789ABCDEF");
}

proof fn hex_digits_are_lower_case(n: int)
    requires
        0 <= n < 16,
    ensures
        lower_hex_digit(n) == "0123456789abcdef"@[n],
{
    reveal_strlit("0123456789abcdef");
}

/// A form-encoded text is that of its bytes, one after another: a letter, a digit,
/// `*`, `-`, `.` or `_` stands for itself, a space becomes a plus, and any other
/// byte a percent sign and two hexadecimal digits.
pub proof fn values_are_form_encoded_byte_by_byte(bytes: Seq<u8>, b: u8)
    ensures
        form_text(Seq::empty()) == Seq::<char>::empty(),
        form_text(bytes.push(b)) == form_text(bytes) + (if (48 <= b <= 57) || (65 <= b <= 90) || (97
            <= b <= 122) || b == 42 || b == 45 || b == 46 || b == 95 {
            seq![b as char]
        } else if b == 32 {
            seq!['+']
        } else {
            seq!['%', "0123456789ABCDEF"@[b as int / 16], "0123456789ABCDEF"@[b as int % 16]]
        }),
{
    hex_digits_are_upper_case(b as int / 16);
    hex_digits_are_upper_case(b as int % 16);
    assert(bytes.push(b).drop_last() =~= bytes);
}

/// A segment of a path is that of its bytes, one after another: tabs and line ends
/// are left out; control bytes, the space, `"`, `#`, `%`, `/`, `<`, `>`, `?`, the
/// backslash, the backquote, braces and all bytes beyond ASCII become a percent
/// sign and two hexadecimal digits; any other byte stands for itself.
pub proof fn segments_are_encoded_byte_by_byte(bytes: Seq<u8>, b: u8)
    ensures
        segment_text(Seq::empty()) == Seq::<char>::empty(),
        segment_text(bytes.push(b)) == segment_text(bytes) + (if b == 9 || b == 10 || b == 13 {
            Seq::empty()
        } else if b <= 32 || b >= 127 || b == 34 || b == 35 || b == 37 || b == 47 || b == 60 || b
            == 62 || b == 63 || b == 92 || b == 96 || b == 123 || b == 125 {
            seq!['%', "0123456789ABCDEF"@[b as int / 16], "0123456789ABCDEF"@[b as int % 16]]
        } else {
            seq![b as char]
        }),
{
    hex_digits_are_upper_case(b as int / 16);
    hex_digits_are_upper_case(b as int % 16);
    assert(bytes.push(b).drop_last() =~= bytes);
}

/// What can stand in a path as it is.
pub proof fn plain_segments_are_short_and_plain(s: Seq<char>)
    ensures
        plain_segment(s) ==> 1 <= s.len() <= 255,
        plain_segment(s) ==> forall|i: int|
            0 <= i < s.len() ==> ('0' <= #[trigger] s[i] <= '9' || 'A' <= s[i] <= 'Z' || 'a' <= s[i]
                <= 'z' || s[i] == '.' || s[i] == '_'),
        plain_segment(s) ==> s[0] != '.' && s[0] != '_',
{
}

/// The inside of a JSON string is that of its characters, one after another:
/// quotes and backslashes get a backslash, control characters are escaped, and any
/// other character stands for itself.
pub proof fn strings_are_escaped_character_by_character(s: Seq<char>, c: char)
    ensures
        json_chars(Seq::empty()) == Seq::<char>::empty(),
        json_chars(s.push(c)) == json_chars(s) + (if c as int == 34 || c as int == 92 {
            seq!['\\', c]
        } else if c as int == 8 {
            seq!['\\', 'b']
        } else if c as int == 9 {
            seq!['\\', 't']
        } else if c as int == 10 {
            seq!['\\', 'n']
        } else if c as int == 12 {
            seq!['\\', 'f']
        } else if c as int == 13 {
            seq!['\\', 'r']
        } else if (c as int) <= 31 {
            seq![
                '\\',
                'u',
                '0',
                '0',
                "0123456789abcdef"@[c as int / 16],
                "0123456789abcdef"@[c as int % 16],
            ]
        } else {
            seq![c]
        }),
{
    if (c as int) <= 31 {
        hex_digits_are_lower_case(c as int / 16);
        hex_digits_are_lower_case(c as int % 16);
    }
    assert(s.push(c).drop_last() =~= s);
}

} // verus!
