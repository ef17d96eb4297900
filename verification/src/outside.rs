//! What the library takes from other crates.
//!
//! Nothing in this module is proved. Each function hands its arguments to an
//! outside function, and its contract says what is relied upon.
use http::header::{HeaderMap, HeaderValue, USER_AGENT};
use js_int::UInt;
use ruma_api::Endpoint;
use ruma_client_api::r0::send::send_message_event;
use ruma_client_api::r0::session::login;
use ruma_client_api::r0::sync::sync_events;
use ruma_events::room::message::MessageEventContent;
use ruma_events::{EventResult, EventType};
use ruma_identifiers::RoomId;
use url::Url;
use vstd::multiset::Multiset;
use vstd::prelude::*;

use crate::config::HttpSetup;
use crate::json::login_body;
use crate::query::{message_target, plain_segment, sync_target, sync_uri_fits};
use crate::request::EndpointRequest;
use crate::session::{text, LoginResponse, LoginResponseView};
use crate::sync::{room_views, JoinedRoom, JoinedRoomView, SyncReply};

verus! {

/// The largest timeout that a sync request can carry, 2^53 - 1.
pub const MAX_SAFE_UINT: u64 = 9007199254740991;

/// The error of `reqwest`, carried as it is.
#[verifier::external_type_specification]
#[verifier::external_body]
pub struct ExReqwestError(reqwest::Error);

/// The HTTP client of `reqwest`, carried as it is.
#[verifier::external_type_specification]
#[verifier::external_body]
pub struct ExReqwestClient(reqwest::Client);

/// A proxy of `reqwest`.
#[verifier::external_type_specification]
#[verifier::external_body]
pub struct ExReqwestProxy(reqwest::Proxy);

/// The builder of `reqwest`'s HTTP client.
#[verifier::external_type_specification]
#[verifier::external_body]
pub struct ExReqwestClientBuilder(reqwest::ClientBuilder);

/// The error of `ruma_api`, carried as it is.
#[verifier::external_type_specification]
#[verifier::external_body]
pub struct ExRumaApiError(ruma_api::Error);

/// The error of `url`, of which only its presence counts.
#[verifier::external_type_specification]
#[verifier::external_body]
pub struct ExUrlParseError(url::ParseError);

/// The error of `http` for a header value, which holds nothing.
#[verifier::external_type_specification]
#[verifier::external_body]
pub struct ExInvalidHeaderValue(http::header::InvalidHeaderValue);

/// The error of `js_int`, which holds nothing.
#[verifier::external_type_specification]
#[verifier::external_body]
pub struct ExTryFromIntError(js_int::TryFromIntError);

/// The content of a message, carried as it is to where it is encoded.
#[verifier::external_type_specification]
#[verifier::external_body]
pub struct ExMessageEventContent(MessageEventContent);

/// A decoded sync reply, carried as it is to whoever reads its events.
#[verifier::external_type_specification]
#[verifier::external_body]
pub struct ExSyncResponse(sync_events::IncomingResponse);

// ---------------------------------------------------------------- settings

/// Whether a character may stand in the value of an HTTP header.
pub open spec fn header_char(c: char) -> bool {
    c == '\t' || (c >= ' ' && c != '\x7f')
}

/// Whether a text can be the value of an HTTP header.
pub open spec fn header_text(text: Seq<char>) -> bool {
    forall|i: int| 0 <= i < text.len() ==> header_char(#[trigger] text[i])
}

/// `http::header::HeaderValue::from_str`: accepts a text just when each of its
/// bytes is a tab or is at least 32 and not 127, which holds of every byte of a
/// character beyond ASCII.
#[verifier::external_body]
pub(crate) fn check_header_value(text: &str) -> (r: Result<(), http::header::InvalidHeaderValue>)
    ensures
        r is Ok <==> header_text(text@),
{
    HeaderValue::from_str(text).map(|_value| ())
}

/// The proxy for all requests that a URL stands for, if it stands for one.
pub uninterp spec fn proxy_for(url: Seq<char>) -> Option<reqwest::Proxy>;

/// Whether an error is one that a URL is refused as a proxy with.
pub uninterp spec fn is_proxy_error(url: Seq<char>, error: reqwest::Error) -> bool;

/// `reqwest::Proxy::all`: the proxy depends on the URL alone.
#[verifier::external_body]
pub(crate) fn parse_proxy(url: &str) -> (r: Result<reqwest::Proxy, reqwest::Error>)
    ensures
        r is Ok <==> proxy_for(url@) is Some,
        r matches Ok(proxy) ==> proxy_for(url@) == Some(proxy),
        r matches Err(e) ==> is_proxy_error(url@, e),
{
    reqwest::Proxy::all(url)
}

/// `js_int::UInt::try_from::<i128>`: keeps a number from 0 to 2^53 - 1 as it
/// is and refuses every other.
#[verifier::external_body]
pub(crate) fn uint_from(value: i128) -> (r: Result<u64, js_int::TryFromIntError>)
    ensures
        r is Ok <==> 0 <= value <= MAX_SAFE_UINT,
        r matches Ok(n) ==> n == value,
{
    UInt::try_from(value).map(u64::from)
}

/// What a builder of an HTTP client has been told.
pub uninterp spec fn builder_setup(builder: reqwest::ClientBuilder) -> HttpSetup;

/// What an HTTP client was set up with.
pub uninterp spec fn client_setup(client: reqwest::Client) -> HttpSetup;

/// `reqwest::Client::builder`: a builder that checks certificates, has been given
/// no proxy, and names no user agent.
#[verifier::external_body]
pub(crate) fn new_builder() -> (r: reqwest::ClientBuilder)
    ensures
        builder_setup(r) == (HttpSetup {
            accept_invalid_certs: false,
            proxies: Seq::empty(),
            user_agent: None,
        }),
{
    reqwest::Client::builder()
}

/// `reqwest::ClientBuilder::danger_accept_invalid_certs`: certificates go
/// unchecked just when that is asked for; all else stays.
#[verifier::external_body]
pub(crate) fn builder_with_certs(builder: reqwest::ClientBuilder, accept_invalid: bool) -> (r:
    reqwest::ClientBuilder)
    ensures
        builder_setup(r) == (HttpSetup {
            accept_invalid_certs: accept_invalid,
            ..builder_setup(builder)
        }),
{
    builder.danger_accept_invalid_certs(accept_invalid)
}

/// `reqwest::ClientBuilder::proxy`: one more proxy; all else stays.
#[verifier::external_body]
pub(crate) fn builder_with_proxy(builder: reqwest::ClientBuilder, proxy: reqwest::Proxy) -> (r:
    reqwest::ClientBuilder)
    ensures
        builder_setup(r) == (HttpSetup {
            proxies: builder_setup(builder).proxies.push(proxy),
            ..builder_setup(builder)
        }),
{
    builder.proxy(proxy)
}

/// `reqwest::ClientBuilder::default_headers`, with the one header `User-Agent`:
/// it takes the place of the one before; all else stays.
#[verifier::external_body]
pub(crate) fn builder_with_user_agent(builder: reqwest::ClientBuilder, user_agent: &str) -> (r:
    reqwest::ClientBuilder)
    requires
        header_text(user_agent@),
    ensures
        builder_setup(r) == (HttpSetup {
            user_agent: Some(user_agent@),
            ..builder_setup(builder)
        }),
{
    let mut headers = HeaderMap::new();
    headers.insert(USER_AGENT, HeaderValue::from_str(user_agent).unwrap());
    builder.default_headers(headers)
}

/// Whether an error is one that an HTTP client of this setup fails to build with.
pub uninterp spec fn is_build_error(setup: HttpSetup, error: reqwest::Error) -> bool;

/// `reqwest::ClientBuilder::build`: the client that comes out is set up as the
/// builder was told. Whether one comes out depends on the machine, so success is
/// not claimed.
#[verifier::external_body]
pub(crate) fn build_client(builder: reqwest::ClientBuilder) -> (r: Result<
    reqwest::Client,
    reqwest::Error,
>)
    ensures
        r matches Ok(client) ==> client_setup(client) == builder_setup(builder),
        r matches Err(e) ==> is_build_error(builder_setup(builder), e),
{
    builder.build()
}

// -------------------------------------------------------------------- URLs

/// The text of the URL that a text parses to, if it parses.
pub uninterp spec fn parsed_url(text: Seq<char>) -> Option<Seq<char>>;

/// `url::Url::parse`: the result depends on the text alone.
#[verifier::external_body]
pub(crate) fn parse_url(text: &str) -> (r: Result<String, url::ParseError>)
    ensures
        r is Ok <==> parsed_url(text@) is Some,
        r matches Ok(url) ==> parsed_url(text@) == Some(url@),
{
    Url::parse(text).map(String::from)
}

/// The text of the URL that a reference stands for, seen from a base URL, if
/// there is one.
pub uninterp spec fn joined_url(base: Seq<char>, reference: Seq<char>) -> Option<Seq<char>>;

/// `url::Url::join`, on the base that a text parses to: the result depends on
/// the two texts alone.
#[verifier::external_body]
pub(crate) fn join_url(base: &str, reference: &str) -> (r: Result<String, url::ParseError>)
    ensures
        r is Ok <==> joined_url(base@, reference@) is Some,
        r matches Ok(url) ==> joined_url(base@, reference@) == Some(url@),
{
    Url::parse(base).and_then(|base| base.join(reference)).map(String::from)
}

// ---------------------------------------------------------------- requests

/// `http::Request::try_from` on a `ruma_client_api` login request by password,
/// without a third party identifier: the request has a fixed path, needs no
/// authentication, and its body is the JSON object of the arguments. It holds
/// strings only, which always encode.
#[verifier::external_body]
pub(crate) fn encode_login(
    user: String,
    password: String,
    device_id: Option<String>,
) -> (r: Result<EndpointRequest, ruma_api::Error>)
    ensures
        r is Ok,
        r->Ok_0.method@ == "POST"@,
        !r->Ok_0.requires_authentication,
        text(r->Ok_0.path_and_query) == Some("/_matrix/client/r0/login"@),
        r->Ok_0.body@ == login_body(user@, password@, text(device_id)),
{
    let login_type = login::LoginType::Password;
    let request = login::Request { user, password, device_id, login_type, medium: None, address: None };
    let request = http::Request::<Vec<u8>>::try_from(request)?;
    Ok(EndpointRequest {
        method: login::Request::METADATA.method.to_string(),
        requires_authentication: login::Request::METADATA.requires_authentication,
        path_and_query: request.uri().path_and_query().map(|target| target.as_str().to_owned()),
        body: request.into_body(),
    })
}

/// `http::Request::try_from` on a `ruma_client_api` sync request without a
/// filter or a presence: the request is authenticated, has an empty body, and
/// carries the arguments in its query, form-encoded. The conversion panics where
/// the URI would be too long, and succeeds on everything else.
#[verifier::external_body]
pub(crate) fn encode_sync(
    since: Option<String>,
    full_state: Option<bool>,
    timeout: Option<u64>,
) -> (r: Result<EndpointRequest, ruma_api::Error>)
    requires
        timeout matches Some(n) ==> n <= MAX_SAFE_UINT,
        sync_uri_fits(text(since), full_state, timeout),
    ensures
        r is Ok,
        r->Ok_0.method@ == "GET"@,
        r->Ok_0.requires_authentication,
        text(r->Ok_0.path_and_query) == Some(sync_target(text(since), full_state, timeout)),
        r->Ok_0.body@ == Seq::<u8>::empty(),
{
    let timeout = timeout.map(|n| UInt::new(n).unwrap());
    let request = sync_events::Request { filter: None, since, full_state, set_presence: None, timeout };
    let request = http::Request::<Vec<u8>>::try_from(request)?;
    Ok(EndpointRequest {
        method: sync_events::Request::METADATA.method.to_string(),
        requires_authentication: sync_events::Request::METADATA.requires_authentication,
        path_and_query: request.uri().path_and_query().map(|target| target.as_str().to_owned()),
        body: request.into_body(),
    })
}

/// The text of the room id that a text parses to, if it parses.
pub uninterp spec fn parsed_room_id(text: Seq<char>) -> Option<Seq<char>>;

/// `ruma_identifiers::RoomId::try_from`: the result depends on the text alone.
#[verifier::external_body]
pub(crate) fn parse_room_id(text: &str) -> (r: Option<String>)
    ensures
        r is Some <==> parsed_room_id(text@) is Some,
        r matches Some(room_id) ==> parsed_room_id(text@) == Some(room_id@),
{
    RoomId::try_from(text).ok().map(|room_id| room_id.to_string())
}

/// `Clone` for `MessageEventContent`, which is derived: the clone is the same
/// message.
pub assume_specification[ <MessageEventContent as Clone>::clone ](
    data: &MessageEventContent,
) -> (r: MessageEventContent)
    ensures
        r == *data,
;

/// Whether a message has a JSON form.
pub uninterp spec fn message_encodes(data: MessageEventContent) -> bool;

/// Whether some bytes are a JSON form of a message. There can be several, as the
/// hashes of an encrypted file come in any order.
pub uninterp spec fn is_message_json(data: MessageEventContent, json: Seq<u8>) -> bool;

/// Whether an error is one that a message without a JSON form is refused with.
pub uninterp spec fn is_message_error(data: MessageEventContent, error: ruma_api::Error) -> bool;

/// `http::Request::try_from` on a `ruma_client_api` request that sends a
/// message event: the request is authenticated, its path names the room, the type
/// of event and the transaction, and its body is a JSON form of the message. It
/// fails just when the message has no such form. The bounds on the type and the
/// transaction keep the URI from being too long, where the conversion would
/// panic.
#[verifier::external_body]
pub(crate) fn encode_room_message(
    room_id: &str,
    event_type: &str,
    txn_id: String,
    data: MessageEventContent,
) -> (r: Result<EndpointRequest, ruma_api::Error>)
    requires
        parsed_room_id(room_id@) is Some,
        plain_segment(event_type@),
        plain_segment(txn_id@),
    ensures
        r is Ok <==> message_encodes(data),
        r matches Ok(request) ==> {
            &&& request.method@ == "PUT"@
            &&& request.requires_authentication
            &&& text(request.path_and_query) == Some(
                message_target(parsed_room_id(room_id@)->0, event_type@, txn_id@),
            )
            &&& is_message_json(data, request.body@)
        },
        r matches Err(e) ==> is_message_error(data, e),
{
    let (room_id, event_type) = (RoomId::try_from(room_id).unwrap(), EventType::from(event_type));
    let request = send_message_event::Request { room_id, event_type, txn_id, data };
    let request = http::Request::<Vec<u8>>::try_from(request)?;
    Ok(EndpointRequest {
        method: send_message_event::Request::METADATA.method.to_string(),
        requires_authentication: send_message_event::Request::METADATA.requires_authentication,
        path_and_query: request.uri().path_and_query().map(|target| target.as_str().to_owned()),
        body: request.into_body(),
    })
}

// ----------------------------------------------------------------- replies

/// What a reply to a login holds, if it is a success and can be decoded.
pub uninterp spec fn login_reply(status: u16, body: Seq<u8>) -> Option<LoginResponseView>;

/// Whether an error is one that this reply to a login comes to.
pub uninterp spec fn is_login_error(status: u16, body: Seq<u8>, error: ruma_api::Error) -> bool;

/// `ruma_client_api`'s login `Response::try_from`, on an `http::Response` of
/// this status and body: the result depends on the two alone, and only a status
/// from 200 to 299 is a success.
#[verifier::external_body]
pub(crate) fn decode_login(status: u16, body: Vec<u8>) -> (r: Result<LoginResponse, ruma_api::Error>)
    requires
        100 <= status <= 999,
    ensures
        r is Ok <==> login_reply(status, body@) is Some,
        r matches Ok(response) ==> login_reply(status, body@) == Some(response@),
        r matches Err(e) ==> is_login_error(status, body@, e),
        r is Ok ==> 200 <= status <= 299,
{
    let reply = http::Response::builder().status(status).body(body).unwrap();
    let reply = login::Response::try_from(reply)?;
    Ok(LoginResponse {
        access_token: reply.access_token,
        home_server: reply.home_server,
        refresh_token: reply.refresh_token,
        user_id: reply.user_id.to_string(),
        device_id: reply.device_id,
    })
}

/// What a reply to a sync request holds, if it is a success and can be decoded:
/// the token to go on from, and the rooms that the user has joined.
pub uninterp spec fn sync_reply(status: u16, body: Seq<u8>) -> Option<
    (Seq<char>, Multiset<JoinedRoomView>),
>;

/// What a decoded sync reply holds: the token to go on from, and the rooms that
/// the user has joined.
pub uninterp spec fn response_holds(response: sync_events::IncomingResponse) -> (
    Seq<char>,
    Multiset<JoinedRoomView>,
);

/// Whether a response is what a reply to a sync request decodes to, with all its
/// rooms and events.
pub uninterp spec fn is_sync_response(
    status: u16,
    body: Seq<u8>,
    response: sync_events::IncomingResponse,
) -> bool;

/// Whether an error is one that this reply to a sync request comes to.
pub uninterp spec fn is_sync_error(status: u16, body: Seq<u8>, error: ruma_api::Error) -> bool;

/// `ruma_client_api`'s sync `IncomingResponse::try_from`, on an `http::Response`
/// of this status and body: what the response holds depends on the two alone,
/// and only a status from 200 to 299 is a success. The rooms are read off the
/// response; in which order they come is left open. What the events say is in the
/// response alone.
#[verifier::external_body]
pub(crate) fn decode_sync(status: u16, body: Vec<u8>) -> (r: Result<SyncReply, ruma_api::Error>)
    requires
        100 <= status <= 999,
    ensures
        r is Ok <==> sync_reply(status, body@) is Some,
        r matches Ok(reply) ==> sync_reply(status, body@) == Some(
            (reply.next_batch@, room_views(reply.rooms@).to_multiset()),
        ),
        r matches Ok(reply) ==> is_sync_response(status, body@, reply.response),
        r matches Ok(reply) ==> response_holds(reply.response) == (
            reply.next_batch@,
            room_views(reply.rooms@).to_multiset(),
        ),
        r matches Err(e) ==> is_sync_error(status, body@, e),
        r is Ok ==> 200 <= status <= 299,
{
    let reply = http::Response::builder().status(status).body(body).unwrap();
    let response = sync_events::IncomingResponse::try_from(reply)?;
    let is_ok = |event: &EventResult<_>| match event {
        EventResult::Ok(_) => true,
        EventResult::Err(_) => false,
    };
    let rooms = response.rooms.join.iter().map(|(room_id, room)| JoinedRoom {
        room_id: room_id.to_string(),
        state: room.state.events.iter().map(is_ok).collect(),
        timeline: room.timeline.events.len(),
    }).collect();
    Ok(SyncReply { next_batch: response.next_batch.clone(), rooms, response })
}

/// The id of the event that a reply to a sent message names, if the reply is a
/// success and can be decoded.
pub uninterp spec fn room_message_reply(status: u16, body: Seq<u8>) -> Option<Seq<char>>;

/// Whether an error is one that this reply to a sent message comes to.
pub uninterp spec fn is_room_message_error(status: u16, body: Seq<u8>, error: ruma_api::Error) -> bool;

/// `ruma_client_api`'s `Response::try_from` for a sent message event, on an
/// `http::Response` of this status and body: the result depends on the two
/// alone, and only a status from 200 to 299 is a success.
#[verifier::external_body]
pub(crate) fn decode_room_message(status: u16, body: Vec<u8>) -> (r: Result<String, ruma_api::Error>)
    requires
        100 <= status <= 999,
    ensures
        r is Ok <==> room_message_reply(status, body@) is Some,
        r matches Ok(event_id) ==> room_message_reply(status, body@) == Some(event_id@),
        r matches Err(e) ==> is_room_message_error(status, body@, e),
        r is Ok ==> 200 <= status <= 299,
{
    let reply = http::Response::builder().status(status).body(body).unwrap();
    let reply = send_message_event::Response::try_from(reply)?;
    Ok(reply.event_id.to_string())
}

} // verus!
